use vstd::prelude::*;

use crate::pattern::{ascii_bytes, COLON, LBRACE, QUOTE, RBRACE};

verus! {

/// Left-to-right segmentation of a candidate input from position `i`
/// onward: `{`, `}` and `:` each form a one-value segment; `"` first
/// flushes any pending run as a segment of its own and then forms one; any
/// other byte joins the pending run. A run still pending at the end is
/// dropped, as it can align with no further section.
pub open spec fn seg_scan(bytes: Seq<u8>, i: int, results: Seq<Seq<u64>>, current: Seq<u64>) -> Seq<
    Seq<u64>,
>
    decreases bytes.len() - i,
{
    if i < 0 || i >= bytes.len() {
        results
    } else {
        let ch = bytes[i];
        let v = ch as u64;
        if ch == LBRACE || ch == RBRACE || ch == COLON {
            seg_scan(bytes, i + 1, results.push(seq![v]), current)
        } else if ch == QUOTE {
            if current.len() == 0 {
                seg_scan(bytes, i + 1, results.push(seq![v]), current)
            } else {
                seg_scan(bytes, i + 1, results.push(current).push(seq![v]), Seq::empty())
            }
        } else {
            seg_scan(bytes, i + 1, results, current.push(v))
        }
    }
}

/// The per-section segments of a candidate input's bytes: token bytes as
/// singleton segments, everything else grouped into run segments, aligned
/// with the sections a pattern compiles to.
pub open spec fn spec_convert_input(bytes: Seq<u8>) -> Seq<Seq<u64>> {
    seg_scan(bytes, 0, Seq::empty(), Seq::empty())
}

/// Splits a candidate input into per-section segments of field-encoded
/// byte values, using the same token boundaries as the pattern compiler,
/// so that segment order aligns with compiled section order.
pub fn convert_input_to_verify_format(input: String) -> (r: Vec<Vec<u64>>)
    requires
        vstd::utf8::is_ascii_chars(input@),
    ensures
        r.deep_view() == spec_convert_input(ascii_bytes(input@)),
{
    let bytes: &[u8] = input.as_str().as_bytes();
    proof {
        vstd::utf8::is_ascii_chars_encode_utf8(input@);
        assert(bytes@ =~= ascii_bytes(input@));
    }
    let ghost gbytes = bytes@;
    let n = bytes.len();
    let mut results: Vec<Vec<u64>> = Vec::new();
    let mut current: Vec<u64> = Vec::new();
    let mut index: usize = 0;
    proof {
        assert(results.deep_view() =~= Seq::<Seq<u64>>::empty());
    }
    while index < n
        invariant
            index <= n,
            n == gbytes.len(),
            bytes@ == gbytes,
            spec_convert_input(gbytes) == seg_scan(
                gbytes,
                index as int,
                results.deep_view(),
                current@,
            ),
        decreases n - index,
    {
        let ghost old_results = results.deep_view();
        let ghost old_current = current@;
        let ch = *vstd::slice::slice_index_get(bytes, index);
        let v = ch as u64;
        if ch == LBRACE || ch == RBRACE || ch == COLON {
            let mut single: Vec<u64> = Vec::new();
            single.push(v);
            proof {
                assert(single.deep_view() =~~= seq![v]);
            }
            results.push(single);
            proof {
                assert(results.deep_view() =~~= old_results.push(seq![v]));
            }
        } else if ch == QUOTE {
            let mut single: Vec<u64> = Vec::new();
            single.push(v);
            proof {
                assert(single.deep_view() =~~= seq![v]);
            }
            if current.len() == 0 {
                results.push(single);
                proof {
                    assert(results.deep_view() =~~= old_results.push(seq![v]));
                }
            } else {
                results.push(current);
                current = Vec::new();
                results.push(single);
                proof {
                    assert(results.deep_view() =~~= old_results.push(old_current).push(seq![v]));
                }
            }
        } else {
            current.push(v);
        }
        index = index + 1;
    }
    results
}

} // verus!
