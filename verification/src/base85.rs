//! Ascii85 payload extraction: the bytes between a `<~` opening delimiter and
//! a `~>` closing delimiter are stripped of whitespace and decoded in groups
//! of five digits, each group yielding four bytes.

use vstd::prelude::*;

verus! {

/// One byte of ASCII whitespace, as `u8::is_ascii_whitespace` counts it.
pub open spec fn is_ascii_ws(b: u8) -> bool {
    b == 0x20 || b == 0x09 || b == 0x0a || b == 0x0c || b == 0x0d
}

/// Index of the first two-byte window `[b0, b1]` at or after `from`, if any.
pub open spec fn find_pair(s: Seq<u8>, from: int, b0: u8, b1: u8) -> Option<int>
    decreases s.len() - from,
{
    if from < 0 || from + 1 >= s.len() {
        None
    } else if s[from] == b0 && s[from + 1] == b1 {
        Some(from)
    } else {
        find_pair(s, from + 1, b0, b1)
    }
}

/// Index of the first `<~` window of the payload, if any.
pub open spec fn open_delim(s: Seq<u8>) -> Option<int> {
    find_pair(s, 0, 0x3c, 0x7e)
}

/// Index of the first `~>` window at or after `from`, if any.
pub open spec fn close_delim(s: Seq<u8>, from: int) -> Option<int> {
    find_pair(s, from, 0x7e, 0x3e)
}

/// Both delimiters are present, the closing one at or after the byte that
/// follows the opening pair.
pub open spec fn has_delims(s: Seq<u8>) -> bool {
    &&& open_delim(s) is Some
    &&& close_delim(s, open_delim(s)->Some_0 + 2) is Some
}

/// The delimited region: everything after the opening `<~` up to and
/// including the closing `~>` pair.
pub open spec fn delimited(s: Seq<u8>) -> Seq<u8>
    recommends
        has_delims(s),
{
    let start = open_delim(s)->Some_0 + 2;
    let end = close_delim(s, start)->Some_0 + 2;
    s.subrange(start, end)
}

/// The sequence with its ASCII whitespace bytes removed, order kept.
pub open spec fn without_ws(s: Seq<u8>) -> Seq<u8>
    decreases s.len(),
{
    if s.len() == 0 {
        Seq::empty()
    } else {
        let rest = without_ws(s.drop_last());
        if is_ascii_ws(s.last()) {
            rest
        } else {
            rest.push(s.last())
        }
    }
}

/// Every byte is at least `!` (0x21), the lowest Ascii85 digit.
pub open spec fn all_digits(s: Seq<u8>) -> bool {
    forall|i: int| 0 <= i < s.len() ==> s[i] >= 0x21
}

/// Value of one group of up to five Ascii85 digits: each digit contributes
/// its distance from `!` in base 85, most significant digit first.
pub open spec fn group_value(chunk: Seq<u8>) -> int
    decreases chunk.len(),
{
    if chunk.len() == 0 {
        0
    } else {
        group_value(chunk.drop_last()) * 85 + (chunk.last() - 0x21)
    }
}

/// The four bytes one digit group decodes to: the group value in base 256,
/// most significant byte first, truncated to 32 bits.
pub open spec fn group_bytes(chunk: Seq<u8>) -> Seq<u8>
    recommends
        all_digits(chunk),
{
    let n = group_value(chunk);
    seq![
        ((n / 0x100_0000) % 0x100) as u8,
        ((n / 0x1_0000) % 0x100) as u8,
        ((n / 0x100) % 0x100) as u8,
        (n % 0x100) as u8,
    ]
}

/// Ascii85 digit decoding: five-digit groups, a shorter final group decoded
/// the same way, four output bytes per group.
pub open spec fn decode_digits(s: Seq<u8>) -> Seq<u8>
    decreases s.len(),
{
    if s.len() == 0 {
        Seq::empty()
    } else if s.len() <= 5 {
        group_bytes(s)
    } else {
        group_bytes(s.take(5)) + decode_digits(s.skip(5))
    }
}

/// The digit stream of a payload: the delimited region minus whitespace.
pub open spec fn digit_stream(s: Seq<u8>) -> Seq<u8>
    recommends
        has_delims(s),
{
    without_ws(delimited(s))
}

/// The whole layer on one payload.
pub open spec fn base85_decode(s: Seq<u8>) -> Seq<u8>
    recommends
        has_delims(s),
{
    decode_digits(digit_stream(s))
}

/// The payload is delimited and its digit stream holds only Ascii85 digits;
/// what `base85` asks of its input.
pub open spec fn base85_input_ok(s: Seq<u8>) -> bool {
    &&& has_delims(s)
    &&& all_digits(digit_stream(s))
}

/// Largest value a digit group of `n` digits can take.
pub open spec fn group_value_max(n: nat) -> int
    decreases n,
{
    if n == 0 {
        0
    } else {
        group_value_max((n - 1) as nat) * 85 + 0xde
    }
}

proof fn lemma_group_value_bound(chunk: Seq<u8>)
    requires
        all_digits(chunk),
    ensures
        0 <= group_value(chunk) <= group_value_max(chunk.len()),
    decreases chunk.len(),
{
    if chunk.len() > 0 {
        assert(all_digits(chunk.drop_last())) by {
            assert(forall|i: int|
                0 <= i < chunk.len() - 1 ==> chunk.drop_last()[i] == chunk[i]);
        }
        lemma_group_value_bound(chunk.drop_last());
        lemma_group_value_max_mono(chunk.drop_last().len(), (chunk.len() - 1) as nat);
    }
}

proof fn lemma_group_value_max_mono(m: nat, n: nat)
    requires
        m <= n,
    ensures
        0 <= group_value_max(m) <= group_value_max(n),
    decreases n,
{
    if n == 0 {
    } else if m == n {
        lemma_group_value_max_mono((n - 1) as nat, (n - 1) as nat);
    } else {
        lemma_group_value_max_mono(m, (n - 1) as nat);
    }
}

/// Returns the delimited region of the payload: the bytes after the first
/// `<~` up to and including the first `~>` that follows it.
pub fn trim_delimiter(payload: &[u8]) -> (r: Vec<u8>)
    requires
        has_delims(payload@),
    ensures
        r@ == delimited(payload@),
{
    let n = payload.len();
    let mut i: usize = 0;
    loop
        invariant
            has_delims(payload@),
            n == payload@.len(),
            0 <= i,
            i + 1 <= n,
            open_delim(payload@) == find_pair(payload@, i as int, 0x3c, 0x7e),
        ensures
            i + 1 < payload@.len(),
            open_delim(payload@) == Some(i as int),
        decreases payload@.len() - i,
    {
        if i + 1 >= n {
            proof {
                assert(find_pair(payload@, i as int, 0x3c, 0x7e) is None);
            }
            // unreachable: the invariant says an opening delimiter exists
            assert(false);
        }
        if payload[i] == 0x3c && payload[i + 1] == 0x7e {
            break;
        }
        proof {
            assert(find_pair(payload@, i as int, 0x3c, 0x7e) == find_pair(
                payload@,
                i + 1,
                0x3c,
                0x7e,
            ));
        }
        i = i + 1;
    }
    let start = i + 2;
    let mut j: usize = start;
    loop
        invariant
            has_delims(payload@),
            n == payload@.len(),
            open_delim(payload@) == Some(i as int),
            start == i + 2,
            start <= j,
            j <= n,
            close_delim(payload@, start as int) == find_pair(payload@, j as int, 0x7e, 0x3e),
        ensures
            j + 1 < payload@.len(),
            close_delim(payload@, start as int) == Some(j as int),
        decreases payload@.len() - j,
    {
        if j + 1 >= n {
            proof {
                assert(find_pair(payload@, j as int, 0x7e, 0x3e) is None);
            }
            // unreachable: the invariant says a closing delimiter exists
            assert(false);
        }
        if payload[j] == 0x7e && payload[j + 1] == 0x3e {
            break;
        }
        proof {
            assert(find_pair(payload@, j as int, 0x7e, 0x3e) == find_pair(
                payload@,
                j + 1,
                0x7e,
                0x3e,
            ));
        }
        j = j + 1;
    }
    let end = j + 2;
    let region = &payload[start..end];
    let mut r: Vec<u8> = Vec::new();
    r.extend_from_slice(region);
    proof {
        assert(r@ =~= delimited(payload@));
    }
    r
}

/// Decodes the Ascii85 layer of a payload: the delimited region is stripped
/// of whitespace and decoded five digits at a time.
#[verifier::rlimit(100)]
pub fn base85(payload: &[u8]) -> (r: Vec<u8>)
    requires
        base85_input_ok(payload@),
    ensures
        r@ == base85_decode(payload@),
{
    let trimmed = trim_delimiter(payload);

    // drop the whitespace
    let mut digits: Vec<u8> = Vec::new();
    let mut i: usize = 0;
    while i < trimmed.len()
        invariant
            i <= trimmed@.len(),
            digits@ == without_ws(trimmed@.take(i as int)),
        decreases trimmed@.len() - i,
    {
        let b = trimmed[i];
        proof {
            assert(trimmed@.take(i + 1).drop_last() =~= trimmed@.take(i as int));
            assert(trimmed@.take(i + 1).last() == trimmed@[i as int]);
        }
        if !(b == 0x20 || b == 0x09 || b == 0x0a || b == 0x0c || b == 0x0d) {
            digits.push(b);
        }
        i = i + 1;
    }
    proof {
        assert(trimmed@.take(trimmed@.len() as int) =~= trimmed@);
        assert(digits@ == digit_stream(payload@));
    }
    decode_digit_stream(&digits)
}

/// Decodes a whitespace-free Ascii85 digit stream five digits at a time.
#[verifier::rlimit(100)]
fn decode_digit_stream(digits: &Vec<u8>) -> (r: Vec<u8>)
    requires
        all_digits(digits@),
    ensures
        r@ == decode_digits(digits@),
{
    let mut out: Vec<u8> = Vec::new();
    let mut pos: usize = 0;
    while pos < digits.len()
        invariant
            pos <= digits@.len(),
            pos % 5 == 0 || pos == digits@.len(),
            all_digits(digits@),
            out@ == decode_digits(digits@.take(pos as int)),
        decreases digits@.len() - pos,
    {
        let end = if pos + 5 <= digits.len() {
            pos + 5
        } else {
            digits.len()
        };
        let ghost chunk = digits@.subrange(pos as int, end as int);
        let mut sum: u64 = 0;
        let mut k: usize = pos;
        while k < end
            invariant
                pos <= k <= end,
                end <= digits@.len(),
                end - pos <= 5,
                all_digits(digits@),
                chunk == digits@.subrange(pos as int, end as int),
                sum == group_value(digits@.subrange(pos as int, k as int)),
                sum <= group_value_max((k - pos) as nat),
            decreases end - k,
        {
            let b = digits[k];
            proof {
                let pre = digits@.subrange(pos as int, k as int);
                let cur = digits@.subrange(pos as int, k + 1);
                assert(cur.drop_last() =~= pre);
                assert(cur.last() == digits@[k as int]);
                assert(all_digits(pre)) by {
                    assert(forall|t: int| 0 <= t < pre.len() ==> pre[t] == digits@[pos + t]);
                }
                lemma_group_value_bound(pre);
                lemma_group_value_max_mono(pre.len() as nat, 4);
                assert(group_value_max(0) == 0);
                assert(group_value_max(1) == 0xde);
                assert(group_value_max(2) == 19092);
                assert(group_value_max(3) == 1623042);
                assert(group_value_max(4) == 137958792);
            }
            sum = sum * 85 + (b - 0x21) as u64;
            k = k + 1;
        }
        out.push(((sum / 0x100_0000) % 0x100) as u8);
        out.push(((sum / 0x1_0000) % 0x100) as u8);
        out.push(((sum / 0x100) % 0x100) as u8);
        out.push((sum % 0x100) as u8);
        proof {
            let done = digits@.take(pos as int);
            let next = digits@.take(end as int);
            assert(next =~= done + chunk);
            lemma_decode_append_group(done, chunk);
            assert(out@ =~= decode_digits(next));
        }
        pos = end;
    }
    proof {
        assert(digits@.take(digits@.len() as int) =~= digits@);
    }
    out
}

/// Appending one digit group of up to five digits to a stream of whole
/// groups appends the group's four bytes to its decoding.
proof fn lemma_decode_append_group(done: Seq<u8>, chunk: Seq<u8>)
    requires
        done.len() % 5 == 0,
        0 < chunk.len() <= 5,
    ensures
        decode_digits(done + chunk) == decode_digits(done) + group_bytes(chunk),
    decreases done.len(),
{
    let s = done + chunk;
    if done.len() == 0 {
        assert(s =~= chunk);
        assert(decode_digits(done) =~= Seq::<u8>::empty());
        assert(decode_digits(done) + group_bytes(chunk) =~= group_bytes(chunk));
    } else {
        assert(done.len() >= 5);
        assert(s.len() > 5);
        assert(s.take(5) =~= done.take(5));
        assert(s.skip(5) =~= done.skip(5) + chunk);
        lemma_decode_append_group(done.skip(5), chunk);
        if done.len() == 5 {
            assert(decode_digits(done) == group_bytes(done.take(5))) by {
                assert(done.take(5) =~= done);
            }
            assert(done.skip(5) =~= Seq::<u8>::empty());
            assert(decode_digits(done.skip(5)) =~= Seq::<u8>::empty());
        } else {
            assert(decode_digits(done) == group_bytes(done.take(5)) + decode_digits(done.skip(5)));
        }
        assert(decode_digits(s) == group_bytes(done.take(5)) + decode_digits(done.skip(5) + chunk));
        assert(decode_digits(done + chunk) =~= decode_digits(done) + group_bytes(chunk));
    }
}

} // verus!
