use vstd::prelude::*;
use vstd::slice::slice_subrange;
use vstd::utf8::*;

verus! {

/// The byte that ends a line.
pub const LINE_FEED: u8 = 10;

/// The byte that, right before a line feed, belongs to the line ending.
pub const CARRIAGE_RETURN: u8 = 13;

/// Index of the first line feed at or after `i`, or `b.len()` when there is none.
pub open spec fn newline_at(b: Seq<u8>, i: int) -> int
    decreases b.len() - i,
{
    if i < 0 || i >= b.len() {
        b.len() as int
    } else if b[i] == LINE_FEED {
        i
    } else {
        newline_at(b, i + 1)
    }
}

/// A line that was ended by `\r\n` loses its carriage return.
pub open spec fn without_cr(l: Seq<u8>) -> Seq<u8> {
    if l.len() > 0 && l.last() == CARRIAGE_RETURN {
        l.drop_last()
    } else {
        l
    }
}

/// The lines of `b`: split at each `\n` (or `\r\n`), terminators dropped,
/// the final line ending optional.
pub open spec fn byte_lines(b: Seq<u8>) -> Seq<Seq<u8>>
    decreases b.len(),
{
    if b.len() == 0 {
        seq![]
    } else {
        let k = newline_at(b, 0);
        if 0 <= k < b.len() {
            seq![without_cr(b.subrange(0, k))] + byte_lines(b.subrange(k + 1, b.len() as int))
        } else {
            seq![b]
        }
    }
}

/// Relies on std::str::from_utf8: it accepts exactly the valid UTF-8
/// sequences, and the text it returns is their decoding.
#[verifier::external_body]
pub(crate) fn decode_utf8_bytes(b: &[u8]) -> (r: Option<String>)
    ensures
        r is Some <==> valid_utf8(b@),
        r is Some ==> r->Some_0@ == decode_utf8(b@),
{
    match std::str::from_utf8(b) {
        Ok(s) => Some(s.to_string()),
        Err(_) => None,
    }
}

proof fn lemma_ascii_split(b: Seq<u8>, i: int)
    requires
        valid_utf8(b),
        0 <= i < b.len(),
        b[i] < 0x80,
    ensures
        valid_utf8(b.subrange(0, i)),
        valid_utf8(b.subrange(i + 1, b.len() as int)),
{
    is_char_boundary_iff_not_is_continuation_byte(b, i);
    valid_utf8_split(b, i);
    let rest = b.subrange(i, b.len() as int);
    assert(rest[0] == b[i]);
    assert(length_of_first_scalar(rest) == 1);
    assert(pop_first_scalar(rest) =~= b.subrange(i + 1, b.len() as int));
}

proof fn lemma_newline_at(b: Seq<u8>, i: int, j: int)
    requires
        0 <= i <= j <= b.len(),
        forall|k: int| i <= k < j ==> b[k] != LINE_FEED,
        j < b.len() ==> b[j] == LINE_FEED,
    ensures
        newline_at(b, i) == j,
    decreases j - i,
{
    if i < j {
        lemma_newline_at(b, i + 1, j);
    }
}

proof fn lemma_line_valid(l: Seq<u8>)
    requires
        valid_utf8(l),
    ensures
        valid_utf8(without_cr(l)),
{
    if l.len() > 0 && l.last() == CARRIAGE_RETURN {
        lemma_ascii_split(l, l.len() - 1);
        assert(l.drop_last() =~= l.subrange(0, l.len() - 1));
    }
}

/// Splits valid UTF-8 output into its lines, each decoded as text.
pub fn split_lines(out: &Vec<u8>) -> (r: Vec<String>)
    requires
        valid_utf8(out@),
    ensures
        r@.len() == byte_lines(out@).len(),
        forall|i: int| 0 <= i < r@.len() ==> #[trigger] r@[i]@ == decode_utf8(byte_lines(out@)[i]),
{
    let n = out.len();
    let bytes = out.as_slice();
    let mut lines: Vec<String> = Vec::new();
    let ghost mut done: Seq<Seq<u8>> = seq![];
    let mut start: usize = 0;
    let mut j: usize = 0;
    assert(out@.subrange(0, n as int) =~= out@);
    assert(done + byte_lines(out@) =~= byte_lines(out@));
    while j < n
        invariant
            n == out@.len(),
            bytes@ == out@,
            0 <= start <= j <= n,
            valid_utf8(out@.subrange(start as int, n as int)),
            forall|k: int| start <= k < j ==> out@[k] != LINE_FEED,
            byte_lines(out@) == done + byte_lines(out@.subrange(start as int, n as int)),
            lines@.len() == done.len(),
            forall|i: int| 0 <= i < lines@.len() ==> #[trigger] lines@[i]@ == decode_utf8(done[i]),
        decreases n - j,
    {
        if bytes[j] == LINE_FEED {
            let ghost s = out@.subrange(start as int, n as int);
            proof {
                lemma_newline_at(s, 0, j - start);
                lemma_ascii_split(s, j - start);
                assert(s.subrange(0, j - start) =~= out@.subrange(start as int, j as int));
                assert(s.subrange(j - start + 1, s.len() as int) =~= out@.subrange(
                    j + 1,
                    n as int,
                ));
                lemma_line_valid(out@.subrange(start as int, j as int));
            }
            let ghost line = without_cr(out@.subrange(start as int, j as int));
            let end: usize = if j > start && bytes[j - 1] == CARRIAGE_RETURN {
                j - 1
            } else {
                j
            };
            let piece = slice_subrange(bytes, start, end);
            assert(piece@ =~= line);
            let text = decode_utf8_bytes(piece);
            match text {
                Some(t) => {
                    lines.push(t);
                },
                None => {
                    assert(false);
                },
            }
            proof {
                assert(byte_lines(s) == seq![line] + byte_lines(out@.subrange(j + 1, n as int)));
                assert(done.push(line) + byte_lines(out@.subrange(j + 1, n as int)) =~= done
                    + byte_lines(s));
                done = done.push(line);
            }
            start = j + 1;
        }
        j = j + 1;
    }
    if start < n {
        let ghost s = out@.subrange(start as int, n as int);
        proof {
            lemma_newline_at(s, 0, s.len() as int);
        }
        let piece = slice_subrange(bytes, start, n);
        let text = decode_utf8_bytes(piece);
        match text {
            Some(t) => {
                lines.push(t);
            },
            None => {
                assert(false);
            },
        }
        proof {
            assert(byte_lines(s) == seq![s]);
            assert(done.push(s) =~= done + byte_lines(s));
            done = done.push(s);
        }
    } else {
        proof {
            assert(out@.subrange(start as int, n as int).len() == 0);
            assert(done + byte_lines(out@.subrange(start as int, n as int)) =~= done);
        }
    }
    lines
}

} // verus!
