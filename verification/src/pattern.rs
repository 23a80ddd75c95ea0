use vstd::prelude::*;

verus! {

/// Pattern token bytes: `{`, `"`, `}`, `:` open a literal section of their
/// own, `[` and `]` delimit a class section, `-` expands a range inside one.
pub const LBRACE: u8 = 123;

pub const QUOTE: u8 = 34;

pub const RBRACE: u8 = 125;

pub const COLON: u8 = 58;

pub const LBRACKET: u8 = 91;

pub const RBRACKET: u8 = 93;

pub const DASH: u8 = 45;

/// A malformed pattern grammar string, rejected before any column or gate
/// is allocated.
#[derive(Clone, Copy, Debug, PartialEq, Eq, Structural)]
pub enum PatternSyntaxError {
    /// `[` opened inside a class, `]` with no class open, or a class still
    /// open at the end of the pattern.
    UnmatchedBracket,
    /// `-` as the first or the last byte of the pattern, where it has no
    /// neighbour to take a range bound from.
    DanglingDash,
    /// A class `[...]` with no members.
    EmptyClass,
}

/// The bytes of an ASCII character sequence, one byte per character.
pub open spec fn ascii_bytes(s: Seq<char>) -> Seq<u8> {
    Seq::new(s.len(), |i: int| s[i] as u8)
}

/// The members a range expansion contributes: every byte strictly greater
/// than `lo` and strictly less than `hi`, in increasing order. The lower
/// bound itself is not re-added: it already sits in the buffer.
pub open spec fn range_bytes(lo: int, hi: int) -> Seq<u8> {
    if lo + 1 >= hi {
        Seq::empty()
    } else {
        Seq::new((hi - lo - 1) as nat, |k: int| (lo + 1 + k) as u8)
    }
}

/// State of the left-to-right scan over the pattern bytes: the sections
/// emitted so far, the accumulation buffer of the class being built, and
/// whether a class is currently open.
pub struct ScanState {
    pub sections: Seq<Seq<u8>>,
    pub current: Seq<u8>,
    pub in_class: bool,
}

pub open spec fn initial_scan_state() -> ScanState {
    ScanState { sections: Seq::empty(), current: Seq::empty(), in_class: false }
}

/// One left-to-right scan over the pattern bytes from position `i` onward:
/// a delimiter byte emits a one-member literal section, `[` opens a class,
/// `]` emits the buffer as a class section, `-` expands a range between its
/// two neighbouring bytes, and any other byte joins the buffer.
pub open spec fn scan_from(bytes: Seq<u8>, i: int, st: ScanState) -> Result<
    Seq<Seq<u8>>,
    PatternSyntaxError,
>
    decreases bytes.len() - i,
{
    if i < 0 || i >= bytes.len() {
        if st.in_class {
            Err(PatternSyntaxError::UnmatchedBracket)
        } else {
            Ok(st.sections)
        }
    } else {
        let ch = bytes[i];
        if ch == LBRACE || ch == QUOTE || ch == RBRACE || ch == COLON {
            scan_from(
                bytes,
                i + 1,
                ScanState { sections: st.sections.push(seq![ch]), ..st },
            )
        } else if ch == LBRACKET {
            if st.in_class {
                Err(PatternSyntaxError::UnmatchedBracket)
            } else {
                scan_from(
                    bytes,
                    i + 1,
                    ScanState { sections: st.sections, current: Seq::empty(), in_class: true },
                )
            }
        } else if ch == RBRACKET {
            if !st.in_class {
                Err(PatternSyntaxError::UnmatchedBracket)
            } else if st.current.len() == 0 {
                Err(PatternSyntaxError::EmptyClass)
            } else {
                scan_from(
                    bytes,
                    i + 1,
                    ScanState {
                        sections: st.sections.push(st.current),
                        current: Seq::empty(),
                        in_class: false,
                    },
                )
            }
        } else if ch == DASH {
            if i == 0 || i == bytes.len() - 1 {
                Err(PatternSyntaxError::DanglingDash)
            } else {
                scan_from(
                    bytes,
                    i + 1,
                    ScanState {
                        current: st.current + range_bytes(bytes[i - 1] as int, bytes[i + 1] as int),
                        ..st
                    },
                )
            }
        } else {
            scan_from(bytes, i + 1, ScanState { current: st.current.push(ch), ..st })
        }
    }
}

/// The sections compiled from a pattern string's bytes, in source order,
/// or the syntax error that rejects the pattern.
pub open spec fn spec_split_regex(bytes: Seq<u8>) -> Result<Seq<Seq<u8>>, PatternSyntaxError> {
    scan_from(bytes, 0, initial_scan_state())
}

/// Splits a pattern grammar string into its sections: an ordered sequence
/// of allowed-byte sets, one per top-level token of the pattern. Malformed
/// patterns are rejected with the exact error `spec_split_regex` names.
pub fn split_regex(regex: String) -> (r: Result<Vec<Vec<u8>>, PatternSyntaxError>)
    requires
        vstd::utf8::is_ascii_chars(regex@),
    ensures
        match r {
            Ok(v) => spec_split_regex(ascii_bytes(regex@)) == Ok::<Seq<Seq<u8>>, PatternSyntaxError>(
                v.deep_view(),
            ),
            Err(e) => spec_split_regex(ascii_bytes(regex@)) == Err::<
                Seq<Seq<u8>>,
                PatternSyntaxError,
            >(e),
        },
{
    let bytes: &[u8] = regex.as_str().as_bytes();
    proof {
        vstd::utf8::is_ascii_chars_encode_utf8(regex@);
        assert(bytes@ =~= ascii_bytes(regex@));
    }
    let ghost gbytes = bytes@;
    let n = bytes.len();
    let mut results: Vec<Vec<u8>> = Vec::new();
    let mut current: Vec<u8> = Vec::new();
    let mut in_class: bool = false;
    let mut index: usize = 0;
    proof {
        assert(results.deep_view() =~= initial_scan_state().sections);
    }
    while index < n
        invariant
            index <= n,
            n == gbytes.len(),
            bytes@ == gbytes,
            gbytes == ascii_bytes(regex@),
            spec_split_regex(gbytes) == scan_from(
                gbytes,
                index as int,
                ScanState { sections: results.deep_view(), current: current@, in_class },
            ),
        decreases n - index,
    {
        let ghost st_old = ScanState {
            sections: results.deep_view(),
            current: current@,
            in_class,
        };
        let ch = *vstd::slice::slice_index_get(bytes, index);
        if ch == LBRACE || ch == QUOTE || ch == RBRACE || ch == COLON {
            let mut lit: Vec<u8> = Vec::new();
            lit.push(ch);
            proof {
                assert(lit.deep_view() =~~= seq![ch]);
            }
            results.push(lit);
            proof {
                assert(results.deep_view() =~~= st_old.sections.push(seq![ch]));
            }
        } else if ch == LBRACKET {
            if in_class {
                proof {
                    assert(scan_from(gbytes, index as int, st_old) == Err::<
                        Seq<Seq<u8>>,
                        PatternSyntaxError,
                    >(PatternSyntaxError::UnmatchedBracket));
                }
                return Err(PatternSyntaxError::UnmatchedBracket);
            }
            current.clear();
            in_class = true;
        } else if ch == RBRACKET {
            if !in_class {
                proof {
                    assert(scan_from(gbytes, index as int, st_old) == Err::<
                        Seq<Seq<u8>>,
                        PatternSyntaxError,
                    >(PatternSyntaxError::UnmatchedBracket));
                }
                return Err(PatternSyntaxError::UnmatchedBracket);
            }
            if current.len() == 0 {
                proof {
                    assert(scan_from(gbytes, index as int, st_old) == Err::<
                        Seq<Seq<u8>>,
                        PatternSyntaxError,
                    >(PatternSyntaxError::EmptyClass));
                }
                return Err(PatternSyntaxError::EmptyClass);
            }
            results.push(current);
            current = Vec::new();
            in_class = false;
            proof {
                assert(results.deep_view() =~~= st_old.sections.push(st_old.current));
            }
        } else if ch == DASH {
            if index == 0 || index == n - 1 {
                proof {
                    assert(scan_from(gbytes, index as int, st_old) == Err::<
                        Seq<Seq<u8>>,
                        PatternSyntaxError,
                    >(PatternSyntaxError::DanglingDash));
                }
                return Err(PatternSyntaxError::DanglingDash);
            }
            let lo = *vstd::slice::slice_index_get(bytes, index - 1);
            let hi = *vstd::slice::slice_index_get(bytes, index + 1);
            let ghost before = current@;
            let mut v: u16 = lo as u16 + 1;
            while v < hi as u16
                invariant
                    lo as u16 + 1 <= v,
                    v <= hi as u16 || v == lo as u16 + 1,
                    current@ =~= before + range_bytes(lo as int, hi as int).take(
                        v as int - lo as int - 1,
                    ),
                decreases hi as int - v as int,
            {
                current.push(v as u8);
                proof {
                    assert(range_bytes(lo as int, hi as int)[v as int - lo as int - 1] == v as u8);
                    assert(current@ =~= before + range_bytes(lo as int, hi as int).take(
                        v as int + 1 - lo as int - 1,
                    ));
                }
                v = v + 1;
            }
            proof {
                assert(range_bytes(lo as int, hi as int).take(
                    if lo as int + 1 >= hi as int {
                        0int
                    } else {
                        hi as int - lo as int - 1
                    },
                ) =~= range_bytes(lo as int, hi as int));
                assert(current@ =~= st_old.current + range_bytes(
                    gbytes[index - 1] as int,
                    gbytes[index + 1] as int,
                ));
            }
        } else {
            current.push(ch);
        }
        index = index + 1;
    }
    proof {
        assert(scan_from(
            gbytes,
            index as int,
            ScanState { sections: results.deep_view(), current: current@, in_class },
        ) == if in_class {
            Err::<Seq<Seq<u8>>, PatternSyntaxError>(PatternSyntaxError::UnmatchedBracket)
        } else {
            Ok::<Seq<Seq<u8>>, PatternSyntaxError>(results.deep_view())
        });
    }
    if in_class {
        return Err(PatternSyntaxError::UnmatchedBracket);
    }
    Ok(results)
}

/// Law: compiling the same pattern string twice yields identical,
/// order-preserving section sequences.
pub proof fn lemma_split_regex_deterministic(p1: Seq<char>, p2: Seq<char>)
    requires
        p1 == p2,
    ensures
        spec_split_regex(ascii_bytes(p1)) == spec_split_regex(ascii_bytes(p2)),
{
}

/// Every section a well-formed pattern compiles to is a non-empty set of
/// allowed bytes: literal sections hold exactly one byte, and an empty
/// class is rejected as a syntax error.
pub proof fn lemma_scan_sections_nonempty(bytes: Seq<u8>, i: int, st: ScanState)
    requires
        forall|j: int| 0 <= j < st.sections.len() ==> #[trigger] st.sections[j].len() > 0,
    ensures
        match scan_from(bytes, i, st) {
            Ok(secs) => forall|j: int| 0 <= j < secs.len() ==> #[trigger] secs[j].len() > 0,
            Err(_) => true,
        },
    decreases bytes.len() - i,
{
    if i < 0 || i >= bytes.len() {
    } else {
        let ch = bytes[i];
        if ch == LBRACE || ch == QUOTE || ch == RBRACE || ch == COLON {
            lemma_scan_sections_nonempty(
                bytes,
                i + 1,
                ScanState { sections: st.sections.push(seq![ch]), ..st },
            );
        } else if ch == LBRACKET {
            if !st.in_class {
                lemma_scan_sections_nonempty(
                    bytes,
                    i + 1,
                    ScanState { sections: st.sections, current: Seq::empty(), in_class: true },
                );
            }
        } else if ch == RBRACKET {
            if st.in_class && st.current.len() > 0 {
                lemma_scan_sections_nonempty(
                    bytes,
                    i + 1,
                    ScanState {
                        sections: st.sections.push(st.current),
                        current: Seq::empty(),
                        in_class: false,
                    },
                );
            }
        } else if ch == DASH {
            if !(i == 0 || i == bytes.len() - 1) {
                lemma_scan_sections_nonempty(
                    bytes,
                    i + 1,
                    ScanState {
                        current: st.current + range_bytes(bytes[i - 1] as int, bytes[i + 1] as int),
                        ..st
                    },
                );
            }
        } else {
            lemma_scan_sections_nonempty(
                bytes,
                i + 1,
                ScanState { current: st.current.push(ch), ..st },
            );
        }
    }
}

/// Corollary at the pattern level: a compiled pattern has no empty section.
pub proof fn lemma_split_regex_sections_nonempty(bytes: Seq<u8>)
    ensures
        match spec_split_regex(bytes) {
            Ok(secs) => forall|j: int| 0 <= j < secs.len() ==> #[trigger] secs[j].len() > 0,
            Err(_) => true,
        },
{
    lemma_scan_sections_nonempty(bytes, 0, initial_scan_state());
}

} // verus!
