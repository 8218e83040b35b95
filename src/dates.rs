use vstd::prelude::*;

use crate::message::Message;
use crate::text::chars_of;

verus! {

broadcast use {vstd::seq_lib::group_to_multiset_ensures, vstd::multiset::group_multiset_axioms};

/// The instant that `chrono::DateTime::parse_from_rfc2822` reads from `s`,
/// as seconds since the Unix epoch and the nanoseconds past that second;
/// `None` when it refuses `s`.
pub uninterp spec fn rfc2822_instant(s: Seq<char>) -> Option<(i64, u32)>;

/// Relies on `chrono::DateTime::parse_from_rfc2822`, then on `timestamp` and
/// `timestamp_subsec_nanos` of its result; the result depends on `s` alone.
#[verifier::external_body]
fn parse_rfc2822(s: &str) -> (r: Option<(i64, u32)>)
    ensures
        r == rfc2822_instant(s@),
{
    match chrono::DateTime::parse_from_rfc2822(s) {
        Ok(d) => Some((d.timestamp(), d.timestamp_subsec_nanos())),
        Err(_) => None,
    }
}

/// `a` is no later than `b`.
pub open spec fn instant_le(a: (i64, u32), b: (i64, u32)) -> bool {
    a.0 < b.0 || (a.0 == b.0 && a.1 <= b.1)
}

/// Lexicographic order on character sequences.
pub open spec fn chars_le(a: Seq<char>, b: Seq<char>) -> bool
    decreases a.len(),
{
    if a.len() == 0 {
        true
    } else if b.len() == 0 {
        false
    } else if a[0] != b[0] {
        a[0] < b[0]
    } else {
        chars_le(a.drop_first(), b.drop_first())
    }
}

/// The sort key of a message: the instant of its date, and the date text.
pub open spec fn date_key(m: Message) -> (Option<(i64, u32)>, Seq<char>) {
    (rfc2822_instant(m.date@), m.date@)
}

/// `a` may stand before `b` in newest-first order: parseable dates newest
/// first, all of them before unparseable ones, and those in descending
/// order of their text.
pub open spec fn key_precedes(a: (Option<(i64, u32)>, Seq<char>), b: (Option<(i64, u32)>, Seq<char>)) -> bool {
    match (a.0, b.0) {
        (Some(x), Some(y)) => instant_le(y, x),
        (Some(_), None) => true,
        (None, Some(_)) => false,
        (None, None) => chars_le(b.1, a.1),
    }
}

pub open spec fn precedes(a: Message, b: Message) -> bool {
    key_precedes(date_key(a), date_key(b))
}

/// Every message may stand before every later one.
pub open spec fn sorted_by_date_desc(s: Seq<Message>) -> bool {
    forall|i: int, j: int| 0 <= i < j < s.len() ==> precedes(#[trigger] s[i], #[trigger] s[j])
}

proof fn lemma_chars_le_total(a: Seq<char>, b: Seq<char>)
    ensures
        chars_le(a, b) || chars_le(b, a),
    decreases a.len(),
{
    if a.len() > 0 && b.len() > 0 && a[0] == b[0] {
        lemma_chars_le_total(a.drop_first(), b.drop_first());
    }
}

proof fn lemma_chars_le_transitive(a: Seq<char>, b: Seq<char>, c: Seq<char>)
    requires
        chars_le(a, b),
        chars_le(b, c),
    ensures
        chars_le(a, c),
    decreases a.len(),
{
    if a.len() > 0 && b.len() > 0 && c.len() > 0 && a[0] == b[0] && b[0] == c[0] {
        lemma_chars_le_transitive(a.drop_first(), b.drop_first(), c.drop_first());
    }
}

proof fn lemma_precedes_total(a: Message, b: Message)
    ensures
        precedes(a, b) || precedes(b, a),
{
    lemma_chars_le_total(a.date@, b.date@);
}

proof fn lemma_precedes_transitive(a: Message, b: Message, c: Message)
    requires
        precedes(a, b),
        precedes(b, c),
    ensures
        precedes(a, c),
{
    if date_key(a).0 is None && date_key(b).0 is None && date_key(c).0 is None {
        lemma_chars_le_transitive(c.date@, b.date@, a.date@);
    }
}

fn text_le(a: &String, b: &String) -> (r: bool)
    ensures
        r == chars_le(a@, b@),
{
    let x = chars_of(a.as_str());
    let y = chars_of(b.as_str());
    let mut i: usize = 0;
    assert(a@.subrange(0, a@.len() as int) =~= a@);
    assert(b@.subrange(0, b@.len() as int) =~= b@);
    while i < x.len() && i < y.len() && x[i] == y[i]
        invariant
            x@ == a@,
            y@ == b@,
            i <= x@.len(),
            i <= y@.len(),
            chars_le(a@, b@) == chars_le(
                a@.subrange(i as int, a@.len() as int),
                b@.subrange(i as int, b@.len() as int),
            ),
        decreases x@.len() - i,
    {
        assert(a@.subrange(i as int, a@.len() as int).drop_first() =~= a@.subrange(
            i + 1,
            a@.len() as int,
        ));
        assert(b@.subrange(i as int, b@.len() as int).drop_first() =~= b@.subrange(
            i + 1,
            b@.len() as int,
        ));
        i = i + 1;
    }
    if i == x.len() {
        true
    } else if i == y.len() {
        false
    } else {
        x[i] < y[i]
    }
}

fn key_before(ka: Option<(i64, u32)>, a: &Message, kb: Option<(i64, u32)>, b: &Message) -> (r: bool)
    requires
        ka == rfc2822_instant(a.date@),
        kb == rfc2822_instant(b.date@),
    ensures
        r == precedes(*a, *b),
{
    match (ka, kb) {
        (Some(x), Some(y)) => y.0 < x.0 || (y.0 == x.0 && y.1 <= x.1),
        (Some(_), None) => true,
        (None, Some(_)) => false,
        (None, None) => text_le(&b.date, &a.date),
    }
}

/// `after` is `before` rearranged: position `k` holds `before[origin[k]]`,
/// no position of `before` is used twice, and messages with equal keys keep
/// their relative order.
pub open spec fn stable_arrangement(before: Seq<Message>, after: Seq<Message>, origin: Seq<int>) -> bool {
    &&& before.len() == after.len()
    &&& origin.len() == after.len()
    &&& forall|k: int|
        0 <= k < after.len() ==> 0 <= #[trigger] origin[k] < before.len() && after[k] == before[origin[k]]
    &&& forall|a: int, b: int| 0 <= a < b < after.len() ==> #[trigger] origin[a] != #[trigger] origin[b]
    &&& forall|a: int, b: int|
        0 <= a < b < after.len() && precedes(#[trigger] after[b], #[trigger] after[a]) ==> origin[a]
            < origin[b]
}

/// Orders the batch newest first by the RFC 2822 instant of each date;
/// messages whose date does not parse come after all others, in descending
/// order of the date text. Messages with equal keys keep their order.
pub fn sort_messages_by_date_desc(messages: &mut Vec<Message>)
    ensures
        exists|origin: Seq<int>| stable_arrangement(old(messages)@, final(messages)@, origin),
        final(messages)@.to_multiset() == old(messages)@.to_multiset(),
        final(messages)@.len() == old(messages)@.len(),
        sorted_by_date_desc(final(messages)@),
        forall|i: int, j: int|
            0 <= i < j < final(messages)@.len() && rfc2822_instant(
                (#[trigger] final(messages)@[j]).date@,
            ) is Some ==> rfc2822_instant((#[trigger] final(messages)@[i]).date@) is Some,
        forall|i: int, j: int|
            0 <= i < j < final(messages)@.len() && rfc2822_instant(
                (#[trigger] final(messages)@[i]).date@,
            ) is Some && rfc2822_instant((#[trigger] final(messages)@[j]).date@) is Some
                ==> instant_le(
                rfc2822_instant(final(messages)@[j].date@)->Some_0,
                rfc2822_instant(final(messages)@[i].date@)->Some_0,
            ),
{
    let n = messages.len();
    let mut keys: Vec<Option<(i64, u32)>> = Vec::new();
    for k in 0..n
        invariant
            n == messages@.len(),
            keys@.len() == k,
            forall|t: int| 0 <= t < k ==> keys@[t] == rfc2822_instant(#[trigger] messages@[t].date@),
    {
        keys.push(parse_rfc2822(messages[k].date.as_str()));
    }
    let ghost initial = messages@;
    let ghost mut origin: Seq<int> = Seq::new(n as nat, |k: int| k);
    let mut i: usize = 0;
    while i < n
        invariant
            n == messages@.len(),
            n == initial.len(),
            origin.len() == n,
            forall|k: int|
                0 <= k < n ==> 0 <= #[trigger] origin[k] < n && messages@[k] == initial[origin[k]],
            forall|k: int| i <= k < n ==> #[trigger] origin[k] == k,
            forall|k: int| 0 <= k < i ==> #[trigger] origin[k] < i,
            forall|a: int, b: int| 0 <= a < b < n ==> #[trigger] origin[a] != #[trigger] origin[b],
            forall|a: int, b: int|
                0 <= a < b < i && precedes(#[trigger] messages@[b], #[trigger] messages@[a])
                    ==> origin[a] < origin[b],
            keys@.len() == n,
            i <= n,
            forall|t: int| 0 <= t < n ==> keys@[t] == rfc2822_instant(#[trigger] messages@[t].date@),
            messages@.to_multiset() == initial.to_multiset(),
            sorted_by_date_desc(messages@.subrange(0, i as int)),
        decreases n - i,
    {
        let ghost before = messages@;
        let x = messages.remove(i);
        let kx = keys.remove(i);
        let mut j: usize = i;
        while j > 0 && !key_before(keys[j - 1], &messages[j - 1], kx, &x)
            invariant
                j <= i,
                i < n,
                before.len() == n,
                messages@ == before.remove(i as int),
                keys@.len() == n - 1,
                kx == rfc2822_instant(x.date@),
                x == before[i as int],
                forall|t: int| 0 <= t < n - 1 ==> keys@[t] == rfc2822_instant(#[trigger] messages@[t].date@),
                forall|t: int| j <= t < i ==> !precedes(#[trigger] messages@[t], x),
            decreases j,
        {
            j = j - 1;
        }
        proof {
            let prefix = before.subrange(0, i as int);
            assert(forall|t: int| 0 <= t < i ==> #[trigger] messages@[t] == prefix[t]);
            assert forall|t: int| 0 <= t < j implies precedes(#[trigger] messages@[t], x) by {
                if t < j - 1 {
                    assert(precedes(prefix[t], prefix[j - 1]));
                    lemma_precedes_transitive(messages@[t], messages@[j - 1], x);
                }
            }
            assert forall|t: int| j <= t < i implies precedes(x, #[trigger] messages@[t]) by {
                lemma_precedes_total(x, messages@[t]);
            }
        }
        messages.insert(j, x);
        keys.insert(j, kx);
        proof {
            let prefix = before.subrange(0, i as int);
            let now = messages@.subrange(0, i + 1);
            assert(messages@ == before.remove(i as int).insert(j as int, x));
            assert forall|a: int, b: int| 0 <= a < b < now.len() implies precedes(
                #[trigger] now[a],
                #[trigger] now[b],
            ) by {
                if b < j {
                    assert(now[a] == prefix[a] && now[b] == prefix[b]);
                } else if b == j {
                    assert(now[a] == prefix[a]);
                } else if a == j {
                    assert(now[b] == prefix[b - 1]);
                } else if a < j {
                    assert(now[a] == prefix[a] && now[b] == prefix[b - 1]);
                } else {
                    assert(now[a] == prefix[a - 1] && now[b] == prefix[b - 1]);
                }
            }
            assert forall|t: int| 0 <= t < n implies keys@[t] == rfc2822_instant(
                #[trigger] messages@[t].date@,
            ) by {
                if t > j {
                    assert(messages@[t] == before.remove(i as int)[t - 1]);
                }
            }
            let removed = before.remove(i as int);
            let moved = origin.remove(i as int).insert(j as int, i as int);
            assert forall|t: int| 0 <= t < n implies #[trigger] messages@[t] == before[old_index(
                t,
                i as int,
                j as int,
            )] && moved[t] == origin[old_index(t, i as int, j as int)] by {
                if t > j && t <= i {
                    assert(messages@[t] == removed[t - 1]);
                } else if t > i {
                    assert(messages@[t] == removed[t - 1]);
                }
            }
            assert forall|a: int, b: int| 0 <= a < b < n implies #[trigger] moved[a] != #[trigger] moved[b] by {
                let oa = old_index(a, i as int, j as int);
                let ob = old_index(b, i as int, j as int);
                assert(moved[a] == origin[oa] && moved[b] == origin[ob]);
                assert(oa != ob);
                if oa < ob {
                    assert(origin[oa] != origin[ob]);
                } else {
                    assert(origin[ob] != origin[oa]);
                }
            }
            assert forall|a: int, b: int|
                0 <= a < b < i + 1 && precedes(#[trigger] messages@[b], #[trigger] messages@[a]) implies moved[a]
                < moved[b] by {
                let oa = old_index(a, i as int, j as int);
                let ob = old_index(b, i as int, j as int);
                assert(messages@[a] == before[oa] && moved[a] == origin[oa]);
                assert(messages@[b] == before[ob] && moved[b] == origin[ob]);
                if a == j {
                    assert(messages@[b] == removed[b - 1]);
                    assert(!precedes(removed[b - 1], x));
                } else if b == j {
                    assert(origin[oa] < i);
                    assert(origin[i as int] == i);
                } else {
                    assert(oa < ob);
                }
            }
            assert forall|k: int| 0 <= k < n implies 0 <= #[trigger] moved[k] < n && messages@[k]
                == initial[moved[k]] by {
                let ok = old_index(k, i as int, j as int);
                assert(messages@[k] == before[ok] && moved[k] == origin[ok]);
            }
            assert forall|k: int| i + 1 <= k < n implies #[trigger] moved[k] == k by {
                assert(moved[k] == origin[old_index(k, i as int, j as int)]);
            }
            assert forall|k: int| 0 <= k < i + 1 implies #[trigger] moved[k] < i + 1 by {
                assert(moved[k] == origin[old_index(k, i as int, j as int)]);
            }
            origin = moved;
        }
        i = i + 1;
    }
    assert(messages@.subrange(0, n as int) =~= messages@);
    assert(stable_arrangement(initial, messages@, origin));
}

/// Where the message at `t` stood before the one at `i` moved to `j`.
spec fn old_index(t: int, i: int, j: int) -> int {
    if t < j {
        t
    } else if t == j {
        i
    } else if t <= i {
        t - 1
    } else {
        t
    }
}

} // verus!
