//! Copying text to the clipboard: through a clipboard helper program where
//! one works, else through the terminal's OSC 52 sequence, whose payload is
//! the text in base64.

use crate::text::{cat, cat3, chars_of, push_char};
use vstd::prelude::*;
use vstd::string::*;

verus! {

/// The base64 symbol for the six-bit value `v`.
pub open spec fn symbol(v: nat) -> char {
    if v < 26 {
        (65 + v) as char
    } else if v < 52 {
        (97 + (v - 26)) as char
    } else if v < 62 {
        (48 + (v - 52)) as char
    } else if v == 62 {
        '+'
    } else {
        '/'
    }
}

/// The four symbols for the bytes `a`, `b`, `c`, of which the first `n` are
/// real: the missing ones are read as zero bits and their symbols are `=`.
pub open spec fn block(a: u8, b: u8, c: u8, n: nat) -> Seq<char> {
    seq![
        symbol((a / 4) as nat),
        symbol(((a % 4) * 16 + b / 16) as nat),
        if n >= 2 { symbol(((b % 16) * 4 + c / 64) as nat) } else { '=' },
        if n >= 3 { symbol((c % 64) as nat) } else { '=' },
    ]
}

/// `bytes` in standard base64, padded with `=`.
pub open spec fn encoded(bytes: Seq<u8>) -> Seq<char>
    decreases bytes.len(),
{
    if bytes.len() == 0 {
        Seq::empty()
    } else if bytes.len() >= 3 {
        block(bytes[0], bytes[1], bytes[2], 3) + encoded(bytes.skip(3))
    } else if bytes.len() == 2 {
        block(bytes[0], bytes[1], 0, 2)
    } else {
        block(bytes[0], 0, 0, 1)
    }
}

fn symbol_of(v: u32) -> (r: char)
    requires
        v < 64,
    ensures
        r == symbol(v as nat),
{
    if v < 26 {
        ((65 + v) as u8) as char
    } else if v < 52 {
        ((97 + (v - 26)) as u8) as char
    } else if v < 62 {
        ((48 + (v - 52)) as u8) as char
    } else if v == 62 {
        '+'
    } else {
        '/'
    }
}

proof fn lemma_packed(a: u32, b: u32, c: u32)
    by (bit_vector)
    requires
        a < 256,
        b < 256,
        c < 256,
    ensures
        ((a << 16u32 | b << 8u32 | c) >> 18u32) & 0x3f == a / 4,
        ((a << 16u32 | b << 8u32 | c) >> 12u32) & 0x3f == (a % 4) * 16 + b / 16,
        ((a << 16u32 | b << 8u32 | c) >> 6u32) & 0x3f == (b % 16) * 4 + c / 64,
        (a << 16u32 | b << 8u32 | c) & 0x3f == c % 64,
{
}

/// `bytes` in standard base64: each three bytes become four symbols, and a
/// last group of one or two bytes is padded with `=`.
pub fn base64(bytes: &[u8]) -> (r: String)
    ensures
        r@ == encoded(bytes@),
{
    let n = bytes.len();
    let mut out = String::new();
    let mut i: usize = 0;
    assert(bytes@.skip(0) =~= bytes@);
    while i < n
        invariant
            i <= n == bytes@.len(),
            out@ + encoded(bytes@.skip(i as int)) == encoded(bytes@),
        decreases n - i,
    {
        let ghost rest = bytes@.skip(i as int);
        let count = if n - i >= 3 { 3 } else { n - i };
        let a = bytes[i] as u32;
        let b = if count >= 2 { bytes[i + 1] as u32 } else { 0 };
        let c = if count >= 3 { bytes[i + 2] as u32 } else { 0 };
        let packed = a << 16u32 | b << 8u32 | c;
        proof {
            lemma_packed(a, b, c);
        }
        let ghost before = out@;
        push_char(&mut out, symbol_of((packed >> 18u32) & 0x3f));
        push_char(&mut out, symbol_of((packed >> 12u32) & 0x3f));
        if count >= 2 {
            push_char(&mut out, symbol_of((packed >> 6u32) & 0x3f));
        } else {
            push_char(&mut out, '=');
        }
        if count >= 3 {
            push_char(&mut out, symbol_of(packed & 0x3f));
        } else {
            push_char(&mut out, '=');
        }
        assert(rest[0] == bytes@[i as int]);
        if count >= 3 {
            assert(rest[1] == bytes@[i + 1]);
            assert(rest[2] == bytes@[i + 2]);
            assert(rest.skip(3) =~= bytes@.skip(i + 3));
            assert(out@ =~= before + block(rest[0], rest[1], rest[2], 3));
        } else if count == 2 {
            assert(rest[1] == bytes@[i + 1]);
            assert(out@ =~= before + block(rest[0], rest[1], 0, 2));
            assert(bytes@.skip(n as int) =~= Seq::<u8>::empty());
        } else {
            assert(out@ =~= before + block(rest[0], 0, 0, 1));
            assert(bytes@.skip(n as int) =~= Seq::<u8>::empty());
        }
        i = i + count;
    }
    assert(out@ + Seq::<char>::empty() =~= out@);
    out
}

/// The start of the OSC 52 sequence that sets the clipboard.
pub const OSC52_START: &'static str = "\x1b]52;c;";

/// The end of the OSC 52 sequence.
pub const OSC52_END: &'static str = "\x07";

/// The OSC 52 sequence that asks the terminal to put `text` on the
/// clipboard: its UTF-8 bytes in base64 between the sequence's start and
/// end.
pub fn osc52_sequence(text: &str) -> (r: String)
    ensures
        r@ == OSC52_START@ + encoded(text.spec_bytes()) + OSC52_END@,
{
    let payload = base64(text.as_bytes());
    cat3(OSC52_START, payload.as_str(), OSC52_END)
}

/// `s` with each line feed made a carriage return and a line feed.
pub open spec fn crlf_of(s: Seq<char>) -> Seq<char>
    decreases s.len(),
{
    if s.len() == 0 {
        Seq::empty()
    } else if s.last() == '\n' {
        crlf_of(s.drop_last()) + seq!['\r', '\n']
    } else {
        crlf_of(s.drop_last()).push(s.last())
    }
}

/// `text` with Windows line endings, as the Windows clipboard helper wants it.
pub fn crlf(text: &str) -> (r: String)
    ensures
        r@ == crlf_of(text@),
{
    let cs = chars_of(text);
    let mut out = String::new();
    let mut i: usize = 0;
    while i < cs.len()
        invariant
            i <= cs@.len(),
            cs@ == text@,
            out@ == crlf_of(cs@.take(i as int)),
        decreases cs@.len() - i,
    {
        assert(cs@.take(i + 1).drop_last() =~= cs@.take(i as int));
        if cs[i] == '\n' {
            let ghost before = out@;
            push_char(&mut out, '\r');
            push_char(&mut out, '\n');
            assert(out@ =~= before + seq!['\r', '\n']);
        } else {
            push_char(&mut out, cs[i]);
        }
        i = i + 1;
    }
    assert(cs@.take(i as int) =~= cs@);
    out
}

/// A clipboard helper program and its arguments.
pub struct Helper {
    pub program: &'static str,
    pub args: &'static [&'static str],
}

/// The clipboard helpers to try, in order: `clip.exe` and `clip` on Windows;
/// `wl-copy`, `xclip`, `xsel` and `pbcopy` elsewhere.
pub fn helpers(windows: bool) -> (r: Vec<Helper>)
    ensures
        windows ==> r@.len() == 2 && r@[0].program@ == "clip.exe"@ && r@[1].program@ == "clip"@,
        windows ==> r@[0].args@.len() == 0 && r@[1].args@.len() == 0,
        !windows ==> r@.len() == 4 && r@[0].program@ == "wl-copy"@ && r@[1].program@ == "xclip"@
            && r@[2].program@ == "xsel"@ && r@[3].program@ == "pbcopy"@,
        !windows ==> r@[0].args@.len() == 0 && r@[3].args@.len() == 0,
        !windows ==> r@[1].args@ == seq!["-selection", "clipboard"],
        !windows ==> r@[2].args@ == seq!["--clipboard", "--input"],
{
    let mut out: Vec<Helper> = Vec::new();
    if windows {
        out.push(Helper { program: "clip.exe", args: &[] });
        out.push(Helper { program: "clip", args: &[] });
    } else {
        out.push(Helper { program: "wl-copy", args: &[] });
        out.push(Helper { program: "xclip", args: &["-selection", "clipboard"] });
        out.push(Helper { program: "xsel", args: &["--clipboard", "--input"] });
        out.push(Helper { program: "pbcopy", args: &[] });
    }
    out
}

/// The error given when no helper could be tried.
pub const NO_HELPER: &'static str = "no clipboard helper";

/// Where a copy stands.
pub enum CopyState {
    /// Helper `next` is to be tried; `error` is why the last one failed.
    Trying { next: usize, error: String },
    /// No helper worked, for the reason `native`; the terminal is to be asked.
    Terminal { native: String },
    /// The text is on the clipboard.
    Copied,
    /// Nothing worked; the message says why.
    Failed { message: String },
}

/// Where a copy stands, as seen by specifications.
pub enum CopyStateView {
    Trying { next: nat, error: Seq<char> },
    Terminal { native: Seq<char> },
    Copied,
    Failed { message: Seq<char> },
}

impl View for CopyState {
    type V = CopyStateView;

    open spec fn view(&self) -> CopyStateView {
        match self {
            CopyState::Trying { next, error } => CopyStateView::Trying { next: *next as nat, error: error@ },
            CopyState::Terminal { native } => CopyStateView::Terminal { native: native@ },
            CopyState::Copied => CopyStateView::Copied,
            CopyState::Failed { message } => CopyStateView::Failed { message: message@ },
        }
    }
}

/// What the outcome of one attempt makes of a copy that stands at `state`,
/// with `count` helpers to try: a helper that worked ends it; one that did
/// not passes its reason on to the next, and after the last the terminal is
/// asked; the terminal's own failure is reported after the helpers'.
pub open spec fn copy_after(
    state: CopyStateView,
    outcome: Result<(), Seq<char>>,
    count: nat,
) -> CopyStateView {
    match state {
        CopyStateView::Trying { next, error } => match outcome {
            Ok(()) => CopyStateView::Copied,
            Err(reason) => if next + 1 < count {
                CopyStateView::Trying { next: next + 1, error: reason }
            } else {
                CopyStateView::Terminal { native: reason }
            },
        },
        CopyStateView::Terminal { native } => match outcome {
            Ok(()) => CopyStateView::Copied,
            Err(fallback) => CopyStateView::Failed { message: native + ", "@ + fallback },
        },
        _ => state,
    }
}

/// An error text, as seen by specifications.
pub open spec fn outcome_view(outcome: &Result<(), String>) -> Result<(), Seq<char>> {
    match outcome {
        Ok(()) => Ok(()),
        Err(e) => Err(e@),
    }
}

impl CopyState {
    /// A copy that has tried nothing yet, with `count` helpers to try: it
    /// starts at the first helper, or at the terminal where there is none.
    pub fn start(count: usize) -> (r: CopyState)
        ensures
            count > 0 ==> r@ == (CopyStateView::Trying { next: 0, error: NO_HELPER@ }),
            count == 0 ==> r@ == (CopyStateView::Terminal { native: NO_HELPER@ }),
    {
        if count > 0 {
            CopyState::Trying { next: 0, error: String::from_str(NO_HELPER) }
        } else {
            CopyState::Terminal { native: String::from_str(NO_HELPER) }
        }
    }

    /// The copy after the attempt it stood at ended with `outcome`.
    pub fn after(self, outcome: Result<(), String>, count: usize) -> (r: CopyState)
        requires
            self@ matches CopyStateView::Trying { next, .. } ==> next < count,
        ensures
            r@ == copy_after(self@, outcome_view(&outcome), count as nat),
    {
        match self {
            CopyState::Trying { next, error } => match outcome {
                Ok(()) => CopyState::Copied,
                Err(reason) => if next + 1 < count {
                    CopyState::Trying { next: next + 1, error: reason }
                } else {
                    CopyState::Terminal { native: reason }
                },
            },
            CopyState::Terminal { native } => match outcome {
                Ok(()) => CopyState::Copied,
                Err(fallback) => CopyState::Failed { message: cat3(native.as_str(), ", ", fallback.as_str()) },
            },
            other => other,
        }
    }

    /// What the copy came to, once it has ended.
    pub fn result(&self) -> (r: Option<Result<(), String>>)
        ensures
            self@ is Copied ==> r == Some(Ok::<(), String>(())),
            self@ matches CopyStateView::Failed { message } ==> r matches Some(Err(m)) && m@ == message,
            (self@ is Trying || self@ is Terminal) ==> r is None,
    {
        match self {
            CopyState::Copied => Some(Ok(())),
            CopyState::Failed { message } => Some(Err(message.clone())),
            _ => None,
        }
    }
}

/// Base64 turns each started group of three bytes into four symbols.
pub proof fn law_base64_length(bytes: Seq<u8>)
    ensures
        encoded(bytes).len() == 4 * ((bytes.len() + 2) / 3),
    decreases bytes.len(),
{
    if bytes.len() >= 3 {
        law_base64_length(bytes.skip(3));
    }
}

/// A copy ends on the first helper that works; when every helper fails the
/// terminal is asked, and when it fails too the message gives the last
/// helper's reason, a comma and the terminal's reason; a copy that ended
/// stays as it ended.
pub proof fn law_copy_outcomes(
    next: nat,
    error: Seq<char>,
    reason: Seq<char>,
    fallback: Seq<char>,
    count: nat,
    outcome: Result<(), Seq<char>>,
    message: Seq<char>,
)
    requires
        next < count,
    ensures
        copy_after(CopyStateView::Trying { next, error }, Ok(()), count) == CopyStateView::Copied,
        copy_after(CopyStateView::Terminal { native: reason }, Ok(()), count)
            == CopyStateView::Copied,
        next + 1 == count ==> copy_after(CopyStateView::Trying { next, error }, Err(reason), count)
            == (CopyStateView::Terminal { native: reason }),
        copy_after(CopyStateView::Terminal { native: reason }, Err(fallback), count)
            == (CopyStateView::Failed { message: reason + ", "@ + fallback }),
        copy_after(CopyStateView::Copied, outcome, count) == CopyStateView::Copied,
        copy_after(CopyStateView::Failed { message }, outcome, count) == (CopyStateView::Failed {
            message,
        }),
{
}

/// Whether every line feed of `t` follows a carriage return.
pub open spec fn feeds_follow_returns(t: Seq<char>) -> bool {
    forall|i: int| 0 <= i < t.len() && #[trigger] t[i] == '\n' ==> i > 0 && t[i - 1] == '\r'
}

/// Every line feed of a text made for the Windows clipboard follows a
/// carriage return.
pub proof fn law_crlf_has_no_bare_line_feed(s: Seq<char>)
    ensures
        feeds_follow_returns(crlf_of(s)),
    decreases s.len(),
{
    if s.len() > 0 {
        law_crlf_has_no_bare_line_feed(s.drop_last());
        let r = crlf_of(s.drop_last());
        let t = crlf_of(s);
        assert forall|i: int| 0 <= i < t.len() && #[trigger] t[i] == '\n' implies i > 0 && t[i - 1] == '\r' by {
            if i < r.len() {
                assert(t[i] == r[i]);
                if i > 0 {
                    assert(t[i - 1] == r[i - 1]);
                }
            }
        }
    }
}

} // verus!
