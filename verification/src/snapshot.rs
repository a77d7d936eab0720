//! The durable snapshot of the progress record: a single structured text
//! document of the form `{"items":[1,2,3]}` holding the recorded item ids.
//! Encoding and decoding are exact inverses: writing a record and reading it
//! back reproduces the same set of ids, with duplicates collapsed.

use vstd::prelude::*;

use crate::digits::{digit_val, digits_val, is_digit, lemma_digits_val_of_spec_digits,
    lemma_digits_val_prefix, lemma_spec_digits_wf, render_u64, spec_digits};
use crate::progress::ProgressRecord;

verus! {

broadcast use vstd::seq_lib::lemma_seq_contains_after_push;

/// The snapshot could not be read back as a record of item ids; the run
/// cannot safely guess prior state, so this is fatal.
#[derive(Clone, Copy, PartialEq, Eq, Structural, Debug)]
pub enum SnapshotError {
    CorruptSnapshot,
}

/// The bytes of `{"items":[`.
pub open spec fn snapshot_prefix() -> Seq<u8> {
    seq![123u8, 34u8, 105u8, 116u8, 101u8, 109u8, 115u8, 34u8, 58u8, 91u8]
}

/// The bytes of `]}`.
pub open spec fn snapshot_suffix() -> Seq<u8> {
    seq![93u8, 125u8]
}

/// The ids rendered in decimal, separated by commas.
pub open spec fn spec_encode_list(items: Seq<u64>) -> Seq<u8>
    decreases items.len(),
{
    if items.len() == 0 {
        Seq::<u8>::empty()
    } else if items.len() == 1 {
        spec_digits(items[0] as nat)
    } else {
        spec_digits(items[0] as nat) + seq![44u8] + spec_encode_list(items.drop_first())
    }
}

/// The whole snapshot document for a sequence of ids.
pub open spec fn spec_snapshot(items: Seq<u64>) -> Seq<u8> {
    snapshot_prefix() + spec_encode_list(items) + snapshot_suffix()
}

/// The length of the run of digit bytes at the front of `s`.
pub open spec fn digit_run(s: Seq<u8>) -> nat
    decreases s.len(),
{
    if s.len() > 0 && is_digit(s[0]) {
        (1 + digit_run(s.drop_first())) as nat
    } else {
        0
    }
}

pub proof fn lemma_digit_run_le_len(s: Seq<u8>)
    ensures
        digit_run(s) <= s.len(),
    decreases s.len(),
{
    if s.len() > 0 && is_digit(s[0]) {
        lemma_digit_run_le_len(s.drop_first());
    }
}

/// A sequence whose first `m` bytes are digits has a digit run of at least `m`.
pub proof fn lemma_digit_run_at_least(s: Seq<u8>, m: int)
    requires
        0 <= m <= s.len(),
        forall|i: int| 0 <= i < m ==> is_digit(#[trigger] s[i]),
    ensures
        digit_run(s) >= m,
    decreases m,
{
    if m > 0 {
        let t = s.drop_first();
        assert forall|i: int| 0 <= i < m - 1 implies is_digit(#[trigger] t[i]) by {
            assert(t[i] == s[i + 1]);
        }
        lemma_digit_run_at_least(t, m - 1);
    }
}

/// The digit run of `s` is `k` exactly when the first `k` bytes are digits
/// and the byte after them, if any, is not.
pub proof fn lemma_digit_run_is(s: Seq<u8>, k: int)
    requires
        0 <= k <= s.len(),
        forall|i: int| 0 <= i < k ==> is_digit(#[trigger] s[i]),
        k == s.len() || !is_digit(s[k]),
    ensures
        digit_run(s) == k,
    decreases k,
{
    if k == 0 {
    } else {
        assert(is_digit(s[0]));
        let t = s.drop_first();
        assert forall|i: int| 0 <= i < k - 1 implies is_digit(#[trigger] t[i]) by {
            assert(t[i] == s[i + 1]);
        }
        if k - 1 < t.len() {
            assert(t[k - 1] == s[k]);
        }
        lemma_digit_run_is(t, k - 1);
    }
}

/// The comma-separated list of decimal numbers between the brackets, if the
/// bytes are exactly such a list with every value fitting in an item id.
pub open spec fn spec_parse_list(s: Seq<u8>) -> Option<Seq<u64>>
    decreases s.len(),
    via spec_parse_list_dec
{
    let k = digit_run(s) as int;
    if k == 0 {
        None::<Seq<u64>>
    } else if digits_val(s.take(k)) > u64::MAX {
        None::<Seq<u64>>
    } else {
        let v = digits_val(s.take(k)) as u64;
        if k == s.len() {
            Some(seq![v])
        } else if s[k] == 44 {
            match spec_parse_list(s.skip(k + 1)) {
                Some(t) => Some(seq![v] + t),
                None => None::<Seq<u64>>,
            }
        } else {
            None::<Seq<u64>>
        }
    }
}

#[via_fn]
proof fn spec_parse_list_dec(s: Seq<u8>) {
    lemma_digit_run_le_len(s);
}

/// The ids held in a snapshot document, if the bytes are a valid snapshot.
pub open spec fn spec_parse_snapshot(s: Seq<u8>) -> Option<Seq<u64>> {
    if s.len() >= 12 && s.take(10) == snapshot_prefix() && s.skip(s.len() - 2)
        == snapshot_suffix() {
        let mid = s.subrange(10, s.len() - 2);
        if mid.len() == 0 {
            Some(Seq::<u64>::empty())
        } else {
            spec_parse_list(mid)
        }
    } else {
        None::<Seq<u64>>
    }
}

/// The ids with every later duplicate dropped: each id keeps its first
/// position. This is what loading a snapshot yields when the document holds
/// an id twice.
pub open spec fn dedup_first(s: Seq<u64>) -> Seq<u64>
    decreases s.len(),
{
    if s.len() == 0 {
        Seq::<u64>::empty()
    } else {
        let d = dedup_first(s.drop_last());
        if d.contains(s.last()) {
            d
        } else {
            d.push(s.last())
        }
    }
}

/// Dropping later duplicates keeps exactly the same members, leaves no
/// duplicate behind, and changes nothing when there was none.
pub proof fn lemma_dedup_first(s: Seq<u64>)
    ensures
        forall|id: u64| dedup_first(s).contains(id) <==> s.contains(id),
        dedup_first(s).no_duplicates(),
        s.no_duplicates() ==> dedup_first(s) == s,
    decreases s.len(),
{
    if s.len() > 0 {
        let front = s.drop_last();
        let x = s.last();
        lemma_dedup_first(front);
        assert(s =~= front.push(x));
        let d = dedup_first(front);
        if !d.contains(x) {
            let p = d.push(x);
            assert forall|a: int, b: int|
                0 <= a < p.len() && 0 <= b < p.len() && a != b implies p[a] != p[b] by {
                if a < d.len() && b < d.len() {
                    assert(p[a] == d[a] && p[b] == d[b]);
                } else if b == d.len() {
                    assert(p[b] == x);
                    if p[a] == x {
                        assert(d[a] == x);
                        assert(d.contains(x));
                    }
                } else {
                    assert(p[a] == x);
                    if p[b] == x {
                        assert(d[b] == x);
                        assert(d.contains(x));
                    }
                }
            }
        }
        if s.no_duplicates() {
            assert(front.no_duplicates()) by {
                assert(forall|a: int, b: int|
                    0 <= a < front.len() && 0 <= b < front.len() && a != b ==> front[a] == s[a]
                        && front[b] == s[b]);
            }
            assert(!front.contains(x)) by {
                if front.contains(x) {
                    let w = choose|w: int| 0 <= w < front.len() && front[w] == x;
                    assert(s[w] == x);
                    assert(s[s.len() - 1] == x);
                }
            }
            assert(dedup_first(s) =~= s);
        }
    }
}

/// Parsing a run of digits followed by a non-digit (or the end) reads back
/// exactly the digits.
proof fn lemma_run_of_concat(d: Seq<u8>, rest: Seq<u8>)
    requires
        forall|i: int| 0 <= i < d.len() ==> is_digit(#[trigger] d[i]),
        rest.len() == 0 || !is_digit(rest[0]),
    ensures
        digit_run(d + rest) == d.len(),
        (d + rest).take(d.len() as int) == d,
{
    let s = d + rest;
    assert forall|i: int| 0 <= i < d.len() implies is_digit(#[trigger] s[i]) by {
        assert(s[i] == d[i]);
    }
    if d.len() < s.len() {
        assert(s[d.len() as int] == rest[0]);
    }
    lemma_digit_run_is(s, d.len() as int);
    assert(s.take(d.len() as int) =~= d);
}

/// Parsing gives back exactly what encoding produced: the list codec is an
/// exact inverse on every non-empty sequence of ids.
pub proof fn lemma_parse_encode_list(items: Seq<u64>)
    requires
        items.len() > 0,
    ensures
        spec_parse_list(spec_encode_list(items)) == Some(items),
    decreases items.len(),
{
    let first = spec_digits(items[0] as nat);
    lemma_spec_digits_wf(items[0] as nat);
    lemma_digits_val_of_spec_digits(items[0] as nat);
    if items.len() == 1 {
        let s = spec_encode_list(items);
        assert(s == first);
        assert(s =~= first + Seq::<u8>::empty());
        lemma_run_of_concat(first, Seq::<u8>::empty());
        assert(digit_run(s) == first.len());
        assert(s.take(first.len() as int) == first);
        assert(seq![items[0]] =~= items);
    } else {
        let rest = seq![44u8] + spec_encode_list(items.drop_first());
        let s = spec_encode_list(items);
        assert(s =~= first + rest);
        assert(rest[0] == 44u8);
        lemma_run_of_concat(first, rest);
        assert(digit_run(s) == first.len());
        assert(s.take(first.len() as int) == first);
        let k = first.len() as int;
        assert(s[k] == rest[0]);
        assert(s.skip(k + 1) =~= spec_encode_list(items.drop_first()));
        lemma_parse_encode_list(items.drop_first());
        assert(spec_parse_list(s) == Some(seq![items[0]] + items.drop_first()));
        assert(seq![items[0]] + items.drop_first() =~= items);
    }
}

/// Law: a snapshot written for any sequence of ids reads back as exactly
/// that sequence.
pub proof fn lemma_snapshot_round_trip(items: Seq<u64>)
    ensures
        spec_parse_snapshot(spec_snapshot(items)) == Some(items),
{
    let s = spec_snapshot(items);
    let body = spec_encode_list(items);
    assert(s.len() == 12 + body.len());
    assert(s.take(10) =~= snapshot_prefix());
    assert(s.skip(s.len() - 2) =~= snapshot_suffix());
    let mid = s.subrange(10, s.len() - 2);
    assert(mid =~= body);
    if items.len() == 0 {
        assert(body.len() == 0);
        assert(items =~= Seq::<u64>::empty());
    } else {
        lemma_spec_digits_wf(items[0] as nat);
        assert(body.len() > 0);
        lemma_parse_encode_list(items);
    }
}

/// Appending one more id extends the encoded list by a comma (when the list
/// was non-empty) and the id's digits.
proof fn lemma_encode_list_push(items: Seq<u64>, x: u64)
    ensures
        spec_encode_list(items.push(x)) == if items.len() == 0 {
            spec_digits(x as nat)
        } else {
            spec_encode_list(items) + seq![44u8] + spec_digits(x as nat)
        },
    decreases items.len(),
{
    let p = items.push(x);
    if items.len() == 0 {
        assert(p.len() == 1);
        assert(p[0] == x);
    } else if items.len() == 1 {
        assert(p.len() == 2);
        assert(p[0] == items[0]);
        assert(p.drop_first() =~= seq![x]);
        assert(spec_encode_list(seq![x]) == spec_digits(x as nat));
    } else {
        assert(p[0] == items[0]);
        assert(p.drop_first() =~= items.drop_first().push(x));
        lemma_encode_list_push(items.drop_first(), x);
        assert(spec_encode_list(p) == spec_digits(items[0] as nat) + seq![44u8]
            + spec_encode_list(items.drop_first().push(x)));
        assert(spec_digits(items[0] as nat) + seq![44u8] + (spec_encode_list(items.drop_first())
            + seq![44u8] + spec_digits(x as nat)) =~= spec_encode_list(items) + seq![44u8]
            + spec_digits(x as nat));
    }
}

/// Writes the snapshot document for `rec`: `{"items":[` then the recorded
/// ids in decimal, oldest first, comma-separated, then `]}`.
pub fn encode(rec: &ProgressRecord) -> (r: Vec<u8>)
    ensures
        r@ == spec_snapshot(rec@),
{
    let ids = rec.to_vec();
    let mut out: Vec<u8> = Vec::new();
    out.push(123);
    out.push(34);
    out.push(105);
    out.push(116);
    out.push(101);
    out.push(109);
    out.push(115);
    out.push(34);
    out.push(58);
    out.push(91);
    assert(out@ =~= snapshot_prefix());
    let n = ids.len();
    for i in 0..n
        invariant
            n == ids@.len(),
            out@ == snapshot_prefix() + spec_encode_list(ids@.take(i as int)),
    {
        if i > 0 {
            out.push(44);
        }
        let mut d = render_u64(ids[i]);
        out.append(&mut d);
        proof {
            lemma_encode_list_push(ids@.take(i as int), ids@[i as int]);
            assert(ids@.take(i + 1) =~= ids@.take(i as int).push(ids@[i as int]));
            assert(out@ =~= snapshot_prefix() + spec_encode_list(ids@.take(i + 1)));
        }
    }
    assert(ids@.take(n as int) =~= ids@);
    out.push(93);
    out.push(125);
    assert(out@ =~= spec_snapshot(rec@));
    out
}

/// Reads a snapshot document back into a progress record. Returns the record
/// exactly when the bytes are a valid snapshot; duplicate ids collapse to one
/// and, when the document held no duplicates, the recorded order is kept.
pub fn decode(bytes: &Vec<u8>) -> (r: Result<ProgressRecord, SnapshotError>)
    ensures
        r is Ok <==> spec_parse_snapshot(bytes@) is Some,
        r matches Ok(rec) ==> {
            let items = spec_parse_snapshot(bytes@)->Some_0;
            &&& rec.wf()
            &&& rec@ == dedup_first(items)
            &&& forall|id: u64| rec@.contains(id) <==> items.contains(id)
            &&& items.no_duplicates() ==> rec@ == items
        },
        r matches Err(e) ==> e == SnapshotError::CorruptSnapshot,
{
    let n = bytes.len();
    if n < 12 {
        return Err(SnapshotError::CorruptSnapshot);
    }
    if !(bytes[0] == 123 && bytes[1] == 34 && bytes[2] == 105 && bytes[3] == 116 && bytes[4] == 101
        && bytes[5] == 109 && bytes[6] == 115 && bytes[7] == 34 && bytes[8] == 58 && bytes[9]
        == 91) {
        proof {
            if bytes@.take(10) == snapshot_prefix() {
                assert forall|k: int| 0 <= k < 10 implies bytes@[k] == snapshot_prefix()[k] by {
                    assert(bytes@.take(10)[k] == bytes@[k]);
                }
                assert(bytes@[0] == 123 && bytes@[1] == 34 && bytes@[2] == 105 && bytes@[3] == 116
                    && bytes@[4] == 101 && bytes@[5] == 109 && bytes@[6] == 115 && bytes@[7] == 34
                    && bytes@[8] == 58 && bytes@[9] == 91);
            }
        }
        return Err(SnapshotError::CorruptSnapshot);
    }
    assert(bytes@.take(10) =~= snapshot_prefix());
    if !(bytes[n - 2] == 93 && bytes[n - 1] == 125) {
        proof {
            if bytes@.skip(n - 2) == snapshot_suffix() {
                assert(bytes@.skip(n - 2)[0] == bytes@[n - 2]);
                assert(bytes@.skip(n - 2)[1] == bytes@[n - 1]);
            }
        }
        return Err(SnapshotError::CorruptSnapshot);
    }
    assert(bytes@.skip(n - 2) =~= snapshot_suffix());
    let ghost mid = bytes@.subrange(10, n - 2);
    let mid_len = n - 12;
    assert(mid.len() == mid_len);
    if mid_len == 0 {
        let rec = ProgressRecord::new();
        assert(spec_parse_snapshot(bytes@) == Some(Seq::<u64>::empty()));
        assert(rec@ == dedup_first(Seq::<u64>::empty()));
        return Ok(rec);
    }
    let mut rec = ProgressRecord::new();
    let ghost mut parsed: Seq<u64> = Seq::empty();
    let mut i: usize = 0;
    proof {
        assert(mid.skip(0) =~= mid);
        assert(rec@ == dedup_first(parsed));
    }
    loop
        invariant
            bytes@.len() == n,
            12 <= n <= usize::MAX,
            mid == bytes@.subrange(10, n - 2),
            mid.len() == mid_len == n - 12,
            0 < mid_len,
            bytes@.take(10) == snapshot_prefix(),
            bytes@.skip(n - 2) == snapshot_suffix(),
            0 <= i <= mid_len,
            forall|t: Seq<u64>|
                spec_parse_list(mid.skip(i as int)) == Some(t) ==> spec_parse_list(mid) == Some(
                    parsed + t,
                ),
            spec_parse_list(mid.skip(i as int)) is None ==> spec_parse_list(mid) is None,
            rec.wf(),
            rec@ == dedup_first(parsed),
        decreases mid_len - i,
    {
        // scan one run of digits starting at i, accumulating its value
        let mut j: usize = i;
        let mut val: u64 = 0;
        let mut overflowed = false;
        let ghost run_start = i as int;
        loop
            invariant_except_break
                bytes@.len() == n,
                12 <= n <= usize::MAX,
                mid == bytes@.subrange(10, n - 2),
                mid.len() == mid_len == n - 12,
                run_start == i,
                i <= j <= mid_len,
                forall|p: int| i <= p < j ==> is_digit(#[trigger] mid[p]),
                overflowed == false,
                val == digits_val(mid.subrange(i as int, j as int)),
            ensures
                i <= j <= mid_len,
                forall|p: int| i <= p < j ==> is_digit(#[trigger] mid[p]),
                !overflowed ==> val == digits_val(mid.subrange(i as int, j as int)),
                !overflowed ==> j == mid_len || !is_digit(mid[j as int]),
                overflowed ==> i < j && j < mid_len && is_digit(mid[j as int]) && digits_val(
                    mid.subrange(i as int, j + 1),
                ) > u64::MAX,
            decreases mid_len - j,
        {
            if j >= mid_len {
                break;
            }
            let b = bytes[10 + j];
            assert(mid[j as int] == bytes@[10 + j]);
            if b < 48 || b > 57 {
                break;
            }
            let d: u64 = (b - 48) as u64;
            proof {
                assert(mid.subrange(i as int, j + 1).drop_last() =~= mid.subrange(
                    i as int,
                    j as int,
                ));
                assert(mid.subrange(i as int, j + 1).last() == mid[j as int]);
            }
            if val > (u64::MAX - d) / 10 {
                // the number cannot fit in an item id: the document is corrupt
                proof {
                    assert(val * 10 + d > u64::MAX) by {
                        assert(val >= (u64::MAX - d) / 10 + 1);
                        assert(((u64::MAX - d) / 10 + 1) * 10 == ((u64::MAX - d) / 10) * 10 + 10);
                        assert(((u64::MAX - d) / 10) * 10 + 10 > u64::MAX - d);
                        assert(val * 10 >= ((u64::MAX - d) / 10 + 1) * 10) by (nonlinear_arith)
                            requires
                                val >= (u64::MAX - d) / 10 + 1,
                        ;
                    }
                }
                overflowed = true;
                proof {
                    if i == j {
                        assert(mid.subrange(i as int, j as int) =~= Seq::<u8>::empty());
                        assert(val == 0);
                        assert(false);
                    }
                    assert(digits_val(mid.subrange(i as int, j + 1)) == val * 10 + digit_val(
                        mid[j as int],
                    ));
                    assert(digit_val(mid[j as int]) == d);
                }
                break;
            }
            proof {
                assert(val * 10 + d <= u64::MAX) by {
                    assert(val <= (u64::MAX - d) / 10);
                    assert(val * 10 <= ((u64::MAX - d) / 10) * 10) by (nonlinear_arith)
                        requires
                            val <= (u64::MAX - d) / 10,
                    ;
                    assert(((u64::MAX - d) / 10) * 10 <= u64::MAX - d);
                }
            }
            val = val * 10 + d;
            j += 1;
        }
        if overflowed {
            // a value larger than any item id: the list cannot be parsed
            proof {
                let rest = mid.skip(run_start);
                let k = digit_run(rest) as int;
                lemma_digit_run_le_len(rest);
                assert(forall|p: int|
                    0 <= p < j - i ==> is_digit(#[trigger] rest[p]) && rest[p] == mid[p + i]);
                assert(rest[j - i] == mid[j as int]);
                assert(is_digit(rest[j - i]));
                lemma_digit_run_at_least(rest, j - i + 1);
                assert(k >= j - i + 1);
                assert(rest.take(k).take(j - i + 1) =~= rest.take(j - i + 1));
                assert(rest.take(j - i + 1) =~= mid.subrange(i as int, j + 1));
                lemma_digits_val_prefix(rest.take(k), j - i + 1);
                assert(digits_val(rest.take(k)) > u64::MAX);
                assert(spec_parse_list(rest) is None);
            }
            return Err(SnapshotError::CorruptSnapshot);
        }
        if j == i {
            // no digits where a number is owed: corrupt
            proof {
                let rest = mid.skip(i as int);
                if rest.len() > 0 {
                    assert(rest[0] == mid[i as int]);
                }
                assert(digit_run(rest) == 0);
                assert(spec_parse_list(rest) is None);
            }
            return Err(SnapshotError::CorruptSnapshot);
        }
        proof {
            let rest = mid.skip(i as int);
            assert(forall|p: int|
                0 <= p < j - i ==> is_digit(#[trigger] rest[p]) && rest[p] == mid[p + i]);
            if j < mid_len {
                assert(rest[j - i] == mid[j as int]);
            }
            lemma_digit_run_is(rest, j - i);
            assert(rest.take(j - i) =~= mid.subrange(i as int, j as int));
            assert(digits_val(rest.take(j - i)) == val);
        }
        let ghost prev = parsed;
        rec.record(val);
        proof {
            parsed = parsed.push(val);
            assert(parsed =~= prev + seq![val]);
            assert(parsed.drop_last() =~= prev);
            assert(parsed.last() == val);
            assert(rec@ == dedup_first(parsed));
        }
        if j == mid_len {
            // the document's last number: the whole list is parsed
            proof {
                let rest = mid.skip(i as int);
                assert(rest.len() == j - i);
                assert(rest.take(j - i) =~= rest);
                assert(digit_run(rest) == j - i);
                assert(spec_parse_list(rest) == Some(seq![val]));
                assert(prev + seq![val] =~= parsed);
                assert(spec_parse_list(mid) == Some(parsed));
                assert(spec_parse_snapshot(bytes@) == Some(parsed));
                lemma_dedup_first(parsed);
            }
            return Ok(rec);
        }
        let sep = bytes[10 + j];
        assert(mid[j as int] == bytes@[10 + j]);
        if sep != 44 {
            // neither a digit nor a comma follows the number: corrupt
            proof {
                let rest = mid.skip(i as int);
                assert(rest[j - i] == mid[j as int]);
                assert(spec_parse_list(rest) is None);
            }
            return Err(SnapshotError::CorruptSnapshot);
        }
        proof {
            let rest = mid.skip(i as int);
            assert(rest[j - i] == 44u8);
            assert(rest.skip(j - i + 1) =~= mid.skip(j + 1));
            assert forall|t: Seq<u64>|
                spec_parse_list(mid.skip(j + 1)) == Some(t) implies spec_parse_list(mid) == Some(
                parsed + t,
            ) by {
                assert(spec_parse_list(rest) == Some(seq![val] + t));
                assert(prev + (seq![val] + t) =~= parsed + t);
            }
            if spec_parse_list(mid.skip(j + 1)) is None {
                assert(spec_parse_list(rest) is None);
            }
        }
        i = j + 1;
    }
}

} // verus!
