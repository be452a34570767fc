//! Interpreting an executed request's response: status classification and,
//! for single-row requests, row-cardinality detection on the body.

use vstd::prelude::*;
use crate::error::ClientError;
use vstd::string::StrSliceExecFns;

verus! {

/// Whitespace as JSON knows it.
pub open spec fn is_ws(c: char) -> bool {
    c == ' ' || c == '\n' || c == '\t' || c == '\r'
}

/// The state of the array scanner after the opening bracket: nesting
/// depth, string/escape context, how many top-level commas were seen,
/// whether any top-level element was seen, whether the top array was
/// closed, and whether anything made the body malformed.
pub ghost struct ScanState {
    pub depth: int,
    pub in_str: bool,
    pub esc: bool,
    pub commas: int,
    pub saw_elem: bool,
    pub done: bool,
    pub bad: bool,
}

/// The scanner's start: inside the top-level array, nothing seen.
pub open spec fn scan_init() -> ScanState {
    ScanState {
        depth: 1,
        in_str: false,
        esc: false,
        commas: 0,
        saw_elem: false,
        done: false,
        bad: false,
    }
}

/// One step of the scanner.
pub open spec fn scan_step(st: ScanState, c: char) -> ScanState {
    if st.done {
        if is_ws(c) {
            st
        } else {
            ScanState { bad: true, ..st }
        }
    } else if st.esc {
        ScanState { esc: false, ..st }
    } else if st.in_str {
        if c == '\\' {
            ScanState { esc: true, ..st }
        } else if c == '"' {
            ScanState { in_str: false, ..st }
        } else {
            st
        }
    } else if c == '"' {
        ScanState { in_str: true, saw_elem: st.saw_elem || st.depth == 1, ..st }
    } else if c == '[' || c == '{' {
        ScanState { depth: st.depth + 1, saw_elem: st.saw_elem || st.depth == 1, ..st }
    } else if c == ']' || c == '}' {
        if st.depth == 1 {
            if c == ']' {
                ScanState { depth: 0, done: true, ..st }
            } else {
                ScanState { bad: true, ..st }
            }
        } else {
            ScanState { depth: st.depth - 1, ..st }
        }
    } else if c == ',' {
        if st.depth == 1 {
            ScanState { commas: st.commas + 1, ..st }
        } else {
            st
        }
    } else if is_ws(c) {
        st
    } else {
        ScanState { saw_elem: st.saw_elem || st.depth == 1, ..st }
    }
}

/// The scanner folded over a sequence of characters.
pub open spec fn scan(st: ScanState, s: Seq<char>) -> ScanState
    decreases s.len(),
{
    if s.len() == 0 {
        st
    } else {
        scan(scan_step(st, s[0]), s.drop_first())
    }
}

pub proof fn lemma_scan_push(st: ScanState, s: Seq<char>, c: char)
    ensures
        scan(st, s.push(c)) == scan_step(scan(st, s), c),
    decreases s.len(),
{
    if s.len() == 0 {
        assert(s.push(c).drop_first() =~= Seq::<char>::empty());
        assert(s.push(c)[0] == c);
        assert(scan(st, s.push(c)) == scan(scan_step(st, c), s.push(c).drop_first()));
        assert(scan(scan_step(st, c), s.push(c).drop_first()) == scan_step(st, c));
        assert(scan(st, s) == st);
    } else {
        assert(s.push(c).drop_first() =~= s.drop_first().push(c));
        assert(s.push(c)[0] == s[0]);
        assert(scan(st, s.push(c)) == scan(scan_step(st, s[0]), s.drop_first().push(c)));
        lemma_scan_push(scan_step(st, s[0]), s.drop_first(), c);
        assert(scan(st, s) == scan(scan_step(st, s[0]), s.drop_first()));
    }
}

/// The first position of `s` that holds a non-whitespace character, or
/// `s.len()` where there is none.
pub open spec fn ws_prefix_len(s: Seq<char>) -> int
    decreases s.len(),
{
    if s.len() == 0 {
        0
    } else if is_ws(s[0]) {
        1 + ws_prefix_len(s.drop_first())
    } else {
        0
    }
}

pub proof fn lemma_ws_prefix_len_bounds(s: Seq<char>)
    ensures
        0 <= ws_prefix_len(s) <= s.len(),
        forall|j: int| 0 <= j < ws_prefix_len(s) ==> is_ws(#[trigger] s[j]),
        ws_prefix_len(s) < s.len() ==> !is_ws(s[ws_prefix_len(s)]),
    decreases s.len(),
{
    if s.len() == 0 {
    } else if is_ws(s[0]) {
        lemma_ws_prefix_len_bounds(s.drop_first());
        assert forall|j: int| 0 <= j < ws_prefix_len(s) implies is_ws(#[trigger] s[j]) by {
            if j > 0 {
                assert(s[j] == s.drop_first()[j - 1]);
            }
        }
        if ws_prefix_len(s) < s.len() {
            assert(s[ws_prefix_len(s)] == s.drop_first()[ws_prefix_len(s.drop_first())]);
        }
    } else {
    }
}

/// How many rows the body shows, read as a top-level JSON array: `None`
/// where the body (after leading whitespace) does not open with `[` or the
/// scan does not close the array cleanly; otherwise the number of
/// top-level elements.
pub open spec fn rows_of(body: Seq<char>) -> Option<int> {
    let t = body.skip(ws_prefix_len(body));
    if t.len() == 0 || t[0] != '[' {
        None
    } else {
        let st = scan(scan_init(), t.drop_first());
        if st.done && !st.bad {
            Some(
                if st.saw_elem {
                    st.commas + 1
                } else {
                    0
                },
            )
        } else {
            None
        }
    }
}

fn is_ws_exec(c: char) -> (r: bool)
    ensures
        r == is_ws(c),
{
    c == ' ' || c == '\n' || c == '\t' || c == '\r'
}

/// Counts the rows a top-level JSON array holds, as `rows_of` describes.
pub fn count_rows(body: &str) -> (r: Option<u128>)
    ensures
        match r {
            Some(k) => rows_of(body@) == Some(k as int),
            None => rows_of(body@) is None,
        },
{
    let n = body.unicode_len();
    let mut start: usize = 0;
    proof {
        lemma_ws_prefix_len_bounds(body@);
    }
    while start < n && is_ws_exec(body.get_char(start))
        invariant
            start <= n,
            n == body@.len(),
            forall|j: int| 0 <= j < start ==> is_ws(#[trigger] body@[j]),
            ws_prefix_len(body@) >= start,
        decreases n - start,
    {
        proof {
            lemma_ws_prefix_len_skip(body@, start as int);
        }
        start = start + 1;
    }
    proof {
        lemma_ws_prefix_len_bounds(body@);
        if start < n {
            assert(ws_prefix_len(body@) == start);
        } else {
            assert(ws_prefix_len(body@) == n);
        }
    }
    let ghost t = body@.skip(ws_prefix_len(body@));
    if start == n {
        proof {
            assert(t.len() == 0);
        }
        return None;
    }
    if body.get_char(start) != '[' {
        proof {
            assert(t[0] == body@[start as int]);
        }
        return None;
    }
    proof {
        assert(t[0] == '[');
    }
    // scan the characters after the opening bracket
    let mut depth: u128 = 1;
    let mut in_str = false;
    let mut esc = false;
    let mut commas: u128 = 0;
    let mut saw_elem = false;
    let mut done = false;
    let mut bad = false;
    let mut i: usize = start + 1;
    proof {
        assert(t.drop_first().take(0int) =~= Seq::<char>::empty());
    }
    while i < n
        invariant
            start < i <= n,
            n == body@.len(),
            t == body@.skip(start as int),
            t.len() == n - start,
            scan(scan_init(), t.drop_first().take(i - start - 1)) == (ScanState {
                depth: depth as int,
                in_str,
                esc,
                commas: commas as int,
                saw_elem,
                done,
                bad,
            }),
            depth <= i,
            commas <= i,
            !done ==> depth >= 1,
            done ==> depth == 0,
        decreases n - i,
    {
        let c = body.get_char(i);
        proof {
            assert(t.drop_first()[i - start - 1] == body@[i as int]);
            assert(t.drop_first().take(i - start) =~= t.drop_first().take(i - start - 1).push(
                body@[i as int],
            ));
            lemma_scan_push(scan_init(), t.drop_first().take(i - start - 1), body@[i as int]);
        }
        if done {
            if !is_ws_exec(c) {
                bad = true;
            }
        } else if esc {
            esc = false;
        } else if in_str {
            if c == '\\' {
                esc = true;
            } else if c == '"' {
                in_str = false;
            }
        } else if c == '"' {
            in_str = true;
            saw_elem = saw_elem || depth == 1;
        } else if c == '[' || c == '{' {
            saw_elem = saw_elem || depth == 1;
            depth = depth + 1;
        } else if c == ']' || c == '}' {
            if depth == 1 {
                if c == ']' {
                    depth = 0;
                    done = true;
                } else {
                    bad = true;
                }
            } else {
                depth = depth - 1;
            }
        } else if c == ',' {
            if depth == 1 {
                commas = commas + 1;
            }
        } else if is_ws_exec(c) {
        } else {
            saw_elem = saw_elem || depth == 1;
        }
        i = i + 1;
    }
    proof {
        assert(t.drop_first().take(n - start - 1) =~= t.drop_first());
    }
    if done && !bad {
        if saw_elem {
            Some(commas + 1)
        } else {
            Some(0)
        }
    } else {
        None
    }
}

proof fn lemma_ws_prefix_len_skip(s: Seq<char>, k: int)
    requires
        0 <= k < s.len(),
        forall|j: int| 0 <= j < k ==> is_ws(#[trigger] s[j]),
        is_ws(s[k]),
    ensures
        ws_prefix_len(s) >= k + 1,
    decreases k,
{
    if s.len() > 0 {
        if k == 0 {
            assert(is_ws(s[0]));
            lemma_ws_prefix_len_bounds(s.drop_first());
        } else {
            assert(is_ws(s[0]));
            assert(forall|j: int| 0 <= j < k - 1 ==> is_ws(#[trigger] s.drop_first()[j]));
            assert(s.drop_first()[k - 1] == s[k]);
            lemma_ws_prefix_len_skip(s.drop_first(), k - 1);
        }
    }
}

/// A successful HTTP status.
pub open spec fn status_ok(status: u16) -> bool {
    200 <= status < 300
}

/// Interprets an executed request's response.
///
/// A non-2xx status is the server's rejection, reported with the status
/// and the body. Under a single-row request the body must be a JSON array
/// with exactly one element: zero rows is `NotFound`, more than one is
/// `MultipleRowsError`, anything that is not an array is `DecodeError`.
/// Otherwise the body is handed back for the caller to decode.
pub fn interpret_response(expect_single: bool, status: u16, body: String) -> (r: Result<
    String,
    ClientError,
>)
    ensures
        !status_ok(status) ==> r == Err::<String, ClientError>(
            ClientError::RequestError { status, body },
        ),
        status_ok(status) && !expect_single ==> r == Ok::<String, ClientError>(body),
        status_ok(status) && expect_single ==> match rows_of(body@) {
            None => r == Err::<String, ClientError>(ClientError::DecodeError),
            Some(k) => if k == 0 {
                r == Err::<String, ClientError>(ClientError::NotFound)
            } else if k == 1 {
                r == Ok::<String, ClientError>(body)
            } else {
                r == Err::<String, ClientError>(ClientError::MultipleRowsError)
            },
        },
{
    if !(200 <= status && status < 300) {
        return Err(ClientError::RequestError { status, body });
    }
    if !expect_single {
        return Ok(body);
    }
    match count_rows(body.as_str()) {
        None => Err(ClientError::DecodeError),
        Some(k) => {
            if k == 0 {
                Err(ClientError::NotFound)
            } else if k == 1 {
                Ok(body)
            } else {
                Err(ClientError::MultipleRowsError)
            }
        },
    }
}

} // verus!
