//! Well-formed FXT text, built from `[key]value\0` records, and what the
//! parser makes of it.
use vstd::prelude::*;

use crate::fxt::{apply_value, next_token, parse_spec, run, State, TokenView};

verus! {

/// A key can be framed: it holds no `]` and no null character.
pub open spec fn valid_key(k: Seq<char>) -> bool {
    forall|i: int| 0 <= i < k.len() ==> k[i] != ']' && k[i] != '\0'
}

/// A value can be framed: it holds no null character (brackets are fine).
pub open spec fn valid_value(v: Seq<char>) -> bool {
    forall|i: int| 0 <= i < v.len() ==> v[i] != '\0'
}

pub open spec fn valid_records(rs: Seq<(Seq<char>, Seq<char>)>) -> bool {
    forall|i: int| 0 <= i < rs.len() ==> valid_key(#[trigger] rs[i].0) && valid_value(rs[i].1)
}

/// The text of one record: `[key]value\0`.
pub open spec fn record_text(k: Seq<char>, v: Seq<char>) -> Seq<char> {
    seq!['['] + k + seq![']'] + v + seq!['\0']
}

/// The text of the records `rs`, one after the other.
pub open spec fn records_text(rs: Seq<(Seq<char>, Seq<char>)>) -> Seq<char>
    decreases rs.len(),
{
    if rs.len() == 0 {
        Seq::empty()
    } else {
        records_text(rs.drop_last()) + record_text(rs.last().0, rs.last().1)
    }
}

/// The mapping that stores each record in turn over `m`, a later record of a
/// key replacing an earlier one.
pub open spec fn records_map(
    m: Map<Seq<char>, Seq<char>>,
    rs: Seq<(Seq<char>, Seq<char>)>,
) -> Map<Seq<char>, Seq<char>>
    decreases rs.len(),
{
    if rs.len() == 0 {
        m
    } else {
        records_map(m, rs.drop_last()).insert(rs.last().0, rs.last().1)
    }
}

/// Characters that do not end the current key or value are gathered into
/// the buffer.
proof fn lemma_gather(
    st: State,
    buf: Seq<char>,
    pending: Option<Seq<char>>,
    m: Map<Seq<char>, Seq<char>>,
    cs: Seq<char>,
    tail: Seq<char>,
    pos: nat,
)
    requires
        st != State::NewToken,
        valid_value(cs),
        st == State::ParsingKey ==> valid_key(cs),
    ensures
        run(st, buf, pending, m, cs + tail, pos) == run(
            st,
            buf + cs,
            pending,
            m,
            tail,
            pos + cs.len(),
        ),
    decreases cs.len(),
{
    if cs.len() == 0 {
        assert(cs + tail =~= tail);
        assert(buf + cs =~= buf);
    } else {
        let s = cs + tail;
        assert(s[0] == cs[0]);
        assert(s.drop_first() =~= cs.drop_first() + tail);
        lemma_gather(st, buf.push(cs[0]), pending, m, cs.drop_first(), tail, pos + 1);
        assert(buf.push(cs[0]) + cs.drop_first() =~= buf + cs);
    }
}

/// One record `[k]v\0`, read between records, stores `v` under `k`, whatever
/// key was waiting before it. Brackets in `v` are kept as they are.
pub proof fn lemma_record(
    pending: Option<Seq<char>>,
    m: Map<Seq<char>, Seq<char>>,
    k: Seq<char>,
    v: Seq<char>,
    tail: Seq<char>,
    pos: nat,
)
    requires
        valid_key(k),
        valid_value(v),
    ensures
        run(State::NewToken, Seq::empty(), pending, m, record_text(k, v) + tail, pos) == run(
            State::NewToken,
            Seq::empty(),
            None,
            m.insert(k, v),
            tail,
            pos + record_text(k, v).len(),
        ),
{
    let s = record_text(k, v) + tail;
    let s1 = k + (seq![']'] + v + seq!['\0'] + tail);
    assert(s.drop_first() =~= s1);
    lemma_gather(
        State::ParsingKey,
        Seq::empty(),
        pending,
        m,
        k,
        seq![']'] + v + seq!['\0'] + tail,
        pos + 1,
    );
    let s2 = seq![']'] + v + seq!['\0'] + tail;
    assert(s2.drop_first() =~= v + (seq!['\0'] + tail));
    assert(Seq::<char>::empty() + k =~= k);
    lemma_gather(
        State::ParsingValue,
        Seq::empty(),
        Some(k),
        m,
        v,
        seq!['\0'] + tail,
        pos + 2 + k.len(),
    );
    assert(Seq::<char>::empty() + v =~= v);
    let s3 = seq!['\0'] + tail;
    assert(s3.drop_first() =~= tail);
}

/// Well-formed text parses to one entry per record, each value exactly as it
/// was written, a later record of a key replacing an earlier one.
pub proof fn lemma_records_parse(
    rs: Seq<(Seq<char>, Seq<char>)>,
    tail: Seq<char>,
    m: Map<Seq<char>, Seq<char>>,
    pos: nat,
)
    requires
        valid_records(rs),
    ensures
        run(State::NewToken, Seq::empty(), None, m, records_text(rs) + tail, pos) == run(
            State::NewToken,
            Seq::empty(),
            None,
            records_map(m, rs),
            tail,
            pos + records_text(rs).len(),
        ),
    decreases rs.len(),
{
    if rs.len() == 0 {
        assert(records_text(rs) + tail =~= tail);
    } else {
        let init = rs.drop_last();
        let (k, v) = rs.last();
        assert(valid_records(init)) by {
            assert forall|i: int| 0 <= i < init.len() implies valid_key(#[trigger] init[i].0)
                && valid_value(init[i].1) by {
                assert(init[i] == rs[i]);
            }
        }
        assert(valid_key(rs[rs.len() - 1].0));
        let rest = record_text(k, v) + tail;
        assert(records_text(rs) + tail =~= records_text(init) + rest);
        lemma_records_parse(init, rest, m, pos);
        lemma_record(
            None,
            records_map(m, init),
            k,
            v,
            tail,
            pos + records_text(init).len(),
        );
    }
}

/// A whole text of well-formed records parses to the mapping of its records.
pub proof fn lemma_well_formed_text(rs: Seq<(Seq<char>, Seq<char>)>, pos: nat)
    requires
        valid_records(rs),
    ensures
        parse_spec(records_text(rs), pos) == Ok::<Map<Seq<char>, Seq<char>>, nat>(
            records_map(Map::empty(), rs),
        ),
{
    lemma_records_parse(rs, Seq::empty(), Map::empty(), pos);
    assert(records_text(rs) + Seq::empty() =~= records_text(rs));
}

/// The records' keys are pairwise distinct.
pub open spec fn distinct_keys(rs: Seq<(Seq<char>, Seq<char>)>) -> bool {
    forall|i: int, j: int| 0 <= i < j < rs.len() ==> rs[i].0 != rs[j].0
}

/// Storing records with distinct keys gives exactly those keys, each with
/// its own value.
proof fn lemma_records_map_distinct(rs: Seq<(Seq<char>, Seq<char>)>)
    requires
        distinct_keys(rs),
    ensures
        records_map(Map::empty(), rs).dom() == Set::new(
            |k: Seq<char>| exists|i: int| 0 <= i < rs.len() && rs[i].0 == k,
        ),
        records_map(Map::empty(), rs).dom().finite(),
        records_map(Map::empty(), rs).dom().len() == rs.len(),
        forall|i: int|
            0 <= i < rs.len() ==> #[trigger] records_map(Map::empty(), rs)[rs[i].0] == rs[i].1,
    decreases rs.len(),
{
    let m = records_map(Map::empty(), rs);
    if rs.len() == 0 {
        assert(m.dom() =~= Set::new(
            |k: Seq<char>| exists|i: int| 0 <= i < rs.len() && rs[i].0 == k,
        ));
    } else {
        let init = rs.drop_last();
        assert(distinct_keys(init)) by {
            assert forall|i: int, j: int| 0 <= i < j < init.len() implies init[i].0
                != init[j].0 by {
                assert(init[i] == rs[i] && init[j] == rs[j]);
            }
        }
        lemma_records_map_distinct(init);
        let m0 = records_map(Map::empty(), init);
        let last = rs.last();
        assert(!m0.dom().contains(last.0)) by {
            if m0.dom().contains(last.0) {
                let i = choose|i: int| 0 <= i < init.len() && init[i].0 == last.0;
                assert(rs[i].0 == rs[rs.len() - 1].0);
            }
        }
        assert(m.dom() =~= Set::new(
            |k: Seq<char>| exists|i: int| 0 <= i < rs.len() && rs[i].0 == k,
        )) by {
            assert forall|k: Seq<char>| m.dom().contains(k) implies exists|i: int|
                0 <= i < rs.len() && rs[i].0 == k by {
                if k == last.0 {
                    assert(rs[rs.len() - 1].0 == k);
                } else {
                    let i = choose|i: int| 0 <= i < init.len() && init[i].0 == k;
                    assert(rs[i].0 == k);
                }
            }
            assert forall|k: Seq<char>|
                (exists|i: int| 0 <= i < rs.len() && rs[i].0 == k) implies m.dom().contains(k) by {
                let i = choose|i: int| 0 <= i < rs.len() && rs[i].0 == k;
                if i < rs.len() - 1 {
                    assert(init[i].0 == k);
                }
            }
        }
        assert(m.dom() =~= m0.dom().insert(last.0));
        assert forall|i: int| 0 <= i < rs.len() implies #[trigger] m[rs[i].0] == rs[i].1 by {
            if i < rs.len() - 1 {
                assert(init[i] == rs[i]);
                assert(rs[i].0 != rs[rs.len() - 1].0);
                assert(m0[init[i].0] == init[i].1);
            }
        }
    }
}

/// Text of records with distinct keys parses to exactly one entry per
/// record, holding that record's value.
pub proof fn lemma_one_entry_per_record(rs: Seq<(Seq<char>, Seq<char>)>, pos: nat)
    requires
        valid_records(rs),
        distinct_keys(rs),
    ensures
        parse_spec(records_text(rs), pos) matches Ok(m) && m.dom().len() == rs.len() && (
        forall|i: int| 0 <= i < rs.len() ==> #[trigger] m.contains_key(rs[i].0) && m[rs[i].0]
            == rs[i].1),
{
    lemma_well_formed_text(rs, pos);
    lemma_records_map_distinct(rs);
    let m = records_map(Map::empty(), rs);
    assert forall|i: int| 0 <= i < rs.len() implies #[trigger] m.contains_key(rs[i].0) by {
        assert(Set::new(|k: Seq<char>| exists|j: int| 0 <= j < rs.len() && rs[j].0 == k).contains(
            rs[i].0,
        ));
    }
}

/// After a key the tokenizer reads a value, where brackets are plain
/// characters: the next token is never another key.
pub proof fn lemma_no_key_after_key(buf: Seq<char>, s: Seq<char>)
    ensures
        !(next_token(State::ParsingValue, buf, s).0 is Key),
    decreases s.len(),
{
    if s.len() > 0 && s[0] != '\0' {
        lemma_no_key_after_key(buf.push(s[0]), s.drop_first());
    }
}

/// Outside a value (between records, or inside a key) the next token is
/// never a value: every value follows a key.
pub proof fn lemma_no_value_outside_value(st: State, buf: Seq<char>, s: Seq<char>)
    requires
        st != State::ParsingValue,
    ensures
        !(next_token(st, buf, s).0 is Value),
    decreases s.len(),
{
    if s.len() > 0 && s[0] != '\0' {
        if s[0] == '[' && st == State::NewToken {
            lemma_no_value_outside_value(State::ParsingKey, buf, s.drop_first());
        } else if !(s[0] == ']' && st == State::ParsingKey) {
            lemma_no_value_outside_value(st, buf.push(s[0]), s.drop_first());
        }
    }
}

/// When a key is still waiting as a new key arrives, the first is dropped:
/// only the second key receives the value that follows. Characters alone
/// never lead there (see `lemma_no_key_after_key`); the rule is the
/// assembler's.
pub proof fn lemma_second_key_wins(
    m: Map<Seq<char>, Seq<char>>,
    k1: Seq<char>,
    k2: Seq<char>,
    v: Seq<char>,
    tail: Seq<char>,
    pos: nat,
)
    requires
        valid_key(k2),
        valid_value(v),
    ensures
        run(State::NewToken, Seq::empty(), Some(k1), m, record_text(k2, v) + tail, pos) == run(
            State::NewToken,
            Seq::empty(),
            None,
            m.insert(k2, v),
            tail,
            pos + record_text(k2, v).len(),
        ),
{
    lemma_record(Some(k1), m, k2, v, tail, pos);
}

/// A value that arrives with no key waiting is dropped: the mapping is left
/// as it was. Characters alone never lead there (see
/// `lemma_no_value_outside_value`); the rule is the assembler's.
pub proof fn lemma_value_without_key(
    m: Map<Seq<char>, Seq<char>>,
    v: Seq<char>,
    tail: Seq<char>,
    pos: nat,
)
    requires
        valid_value(v),
    ensures
        run(State::ParsingValue, Seq::empty(), None, m, v + seq!['\0'] + tail, pos) == run(
            State::NewToken,
            Seq::empty(),
            None,
            m,
            tail,
            pos + v.len() + 1,
        ),
{
    lemma_gather(State::ParsingValue, Seq::empty(), None, m, v, seq!['\0'] + tail, pos);
    assert(v + seq!['\0'] + tail =~= v + (seq!['\0'] + tail));
    assert(Seq::<char>::empty() + v =~= v);
    assert(apply_value(None, m, v) == m);
    let s = seq!['\0'] + tail;
    assert(s.drop_first() =~= tail);
}

/// Text that ends with a key and an unterminated value still parses: the
/// open key gets no entry, and the records before it are kept.
pub proof fn lemma_dangling_key(
    rs: Seq<(Seq<char>, Seq<char>)>,
    k: Seq<char>,
    v: Seq<char>,
    pos: nat,
)
    requires
        valid_records(rs),
        valid_key(k),
        valid_value(v),
    ensures
        parse_spec(records_text(rs) + seq!['['] + k + seq![']'] + v, pos) == Ok::<
            Map<Seq<char>, Seq<char>>,
            nat,
        >(records_map(Map::empty(), rs)),
{
    let m = records_map(Map::empty(), rs);
    let open_text = seq!['['] + k + seq![']'] + v;
    let p = pos + records_text(rs).len();
    assert(records_text(rs) + seq!['['] + k + seq![']'] + v =~= records_text(rs) + open_text);
    lemma_records_parse(rs, open_text, Map::empty(), pos);
    assert(open_text.drop_first() =~= k + (seq![']'] + v));
    lemma_gather(State::ParsingKey, Seq::empty(), None, m, k, seq![']'] + v, p + 1);
    assert(Seq::<char>::empty() + k =~= k);
    let s2 = seq![']'] + v;
    assert(s2.drop_first() =~= v + Seq::empty());
    lemma_gather(State::ParsingValue, Seq::empty(), Some(k), m, v, Seq::empty(), p + 2 + k.len());
}

/// A null character between records is fatal: parsing fails at the position
/// just after it.
pub proof fn lemma_null_between_records(
    rs: Seq<(Seq<char>, Seq<char>)>,
    tail: Seq<char>,
    pos: nat,
)
    requires
        valid_records(rs),
    ensures
        parse_spec(records_text(rs) + seq!['\0'] + tail, pos) == Err::<
            Map<Seq<char>, Seq<char>>,
            nat,
        >(pos + records_text(rs).len() + 1),
{
    let rest = seq!['\0'] + tail;
    assert(records_text(rs) + seq!['\0'] + tail =~= records_text(rs) + rest);
    lemma_records_parse(rs, rest, Map::empty(), pos);
}

/// A null character inside a key is fatal: parsing fails at the position
/// just after it.
pub proof fn lemma_null_in_key(
    rs: Seq<(Seq<char>, Seq<char>)>,
    k: Seq<char>,
    tail: Seq<char>,
    pos: nat,
)
    requires
        valid_records(rs),
        valid_key(k),
    ensures
        parse_spec(records_text(rs) + seq!['['] + k + seq!['\0'] + tail, pos) == Err::<
            Map<Seq<char>, Seq<char>>,
            nat,
        >(pos + records_text(rs).len() + k.len() + 2),
{
    let m = records_map(Map::empty(), rs);
    let rest = seq!['['] + k + seq!['\0'] + tail;
    let p = pos + records_text(rs).len();
    assert(records_text(rs) + seq!['['] + k + seq!['\0'] + tail =~= records_text(rs) + rest);
    lemma_records_parse(rs, rest, Map::empty(), pos);
    assert(rest.drop_first() =~= k + (seq!['\0'] + tail));
    lemma_gather(State::ParsingKey, Seq::empty(), None, m, k, seq!['\0'] + tail, p + 1);
}

} // verus!
