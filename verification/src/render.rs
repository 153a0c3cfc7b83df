//! Console rendering: ANSI color and emphasis escapes, obfuscation, and
//! OSC-8 hyperlink wrapping for click actions.

use vstd::prelude::*;
use vstd::string::{StringExecFns, StrSliceExecFns};
use crate::color::{Color, NamedColor};
use crate::strutil::{
    dec_spec, dec_u32, is_ascii_alpha, is_ascii_alpha_char, is_space, is_space_char, push_char,
};
use crate::style::{ClickEvent, ClickV, Style, StyleV};

verus! {

/// Relies on rand's random_range over `'a'..'z'`: a character drawn from a
/// fresh thread-local source, always in `'a'..='y'`.
#[verifier::external_body]
fn random_lowercase() -> (c: char)
    ensures
        0x61 <= (c as u32) && (c as u32) < 0x7a,
{
    rand::random_range(core::ops::Range { start: 'a', end: 'z' })
}

/// How an obfuscated string relates to its source: same length, whitespace
/// kept verbatim, every other character drawn from the lowercase range.
pub open spec fn obf_rel(a: Seq<char>, b: Seq<char>) -> bool {
    &&& b.len() == a.len()
    &&& forall|i: int|
        0 <= i < a.len() ==> if is_space_char(a[i]) {
            b[i] == a[i]
        } else {
            0x61 <= ((#[trigger] b[i]) as u32) && (b[i] as u32) < 0x7a
        }
}

/// Replace every non-whitespace character by a fresh random lowercase letter.
pub fn obfuscate_text(text: &str) -> (r: String)
    ensures
        obf_rel(text@, r@),
{
    let n = text.unicode_len();
    let mut out = String::new();
    let mut i: usize = 0;
    while i < n
        invariant
            0 <= i <= n,
            n == text@.len(),
            out@.len() == i,
            forall|j: int|
                0 <= j < i ==> if is_space_char(text@[j]) {
                    out@[j] == text@[j]
                } else {
                    0x61 <= ((#[trigger] out@[j]) as u32) && (out@[j] as u32) < 0x7a
                },
        decreases n - i,
    {
        let c = text.get_char(i);
        if is_space(c) {
            push_char(&mut out, c);
        } else {
            push_char(&mut out, random_lowercase());
        }
        i = i + 1;
    }
    out
}

/// The ANSI escape that opens a named color.
pub open spec fn named_escape(c: NamedColor) -> Seq<char> {
    match c {
        NamedColor::Black => "\u{1b}[30m"@,
        NamedColor::DarkBlue => "\u{1b}[34m"@,
        NamedColor::DarkGreen => "\u{1b}[32m"@,
        NamedColor::DarkAqua => "\u{1b}[36m"@,
        NamedColor::DarkRed => "\u{1b}[31m"@,
        NamedColor::DarkPurple => "\u{1b}[35m"@,
        NamedColor::Gold => "\u{1b}[33m"@,
        NamedColor::Gray => "\u{1b}[37m"@,
        NamedColor::DarkGray => "\u{1b}[90m"@,
        NamedColor::Blue => "\u{1b}[94m"@,
        NamedColor::Green => "\u{1b}[92m"@,
        NamedColor::Aqua => "\u{1b}[96m"@,
        NamedColor::Red => "\u{1b}[91m"@,
        NamedColor::LightPurple => "\u{1b}[95m"@,
        NamedColor::Yellow => "\u{1b}[93m"@,
        NamedColor::White => "\u{1b}[97m"@,
    }
}

/// The ANSI escape that opens a color.
pub open spec fn color_escape(c: Color) -> Seq<char> {
    match c {
        Color::Named(n) => named_escape(n),
        Color::Rgb(rgb) => "\u{1b}[38;2;"@ + dec_spec(rgb.red as nat) + ";"@ + dec_spec(
            rgb.green as nat,
        ) + ";"@ + dec_spec(rgb.blue as nat) + "m"@,
    }
}

/// Wrapping between an opening escape and the reset escape.
pub open spec fn esc_wrap(open_esc: Seq<char>, s: Seq<char>) -> Seq<char> {
    open_esc + s + "\u{1b}[0m"@
}

/// The deterministic stages of styling before obfuscation, in the fixed
/// order color, bold, italic, underline, strikethrough.
pub open spec fn pre_obf_spec(st: StyleV, t: Seq<char>) -> Seq<char> {
    let t1 = match st.color {
        Some(c) => esc_wrap(color_escape(c), t),
        None => t,
    };
    let t2 = if st.bold == Some(true) {
        esc_wrap("\u{1b}[1m"@, t1)
    } else {
        t1
    };
    let t3 = if st.italic == Some(true) {
        esc_wrap("\u{1b}[3m"@, t2)
    } else {
        t2
    };
    let t4 = if st.underlined == Some(true) {
        esc_wrap("\u{1b}[4m"@, t3)
    } else {
        t3
    };
    if st.strikethrough == Some(true) {
        esc_wrap("\u{1b}[9m"@, t4)
    } else {
        t4
    }
}

/// The obfuscation stage: a scramble when the style asks for one, the
/// unchanged string otherwise.
pub open spec fn obf_step(st: StyleV, a: Seq<char>, b: Seq<char>) -> bool {
    if st.obfuscated == Some(true) {
        obf_rel(a, b)
    } else {
        b == a
    }
}

/// The shadow stage: a terminal dim attribute pair when a shadow color is
/// set.
pub open spec fn post_obf_spec(st: StyleV, m: Seq<char>) -> Seq<char> {
    if st.shadow_color is Some {
        "\u{1b}[2m"@ + m + "\u{1b}[22m"@
    } else {
        m
    }
}

/// How applying a style relates input text to output: the deterministic
/// stages around an obfuscation stage whose letters are random.
pub open spec fn ansi_rel(st: StyleV, t: Seq<char>, out: Seq<char>) -> bool {
    exists|m: Seq<char>| #[trigger]
        obf_step(st, pre_obf_spec(st, t), m) && out == post_obf_spec(st, m)
}

/// When the style does not obfuscate, applying it is deterministic.
pub proof fn lemma_ansi_deterministic(st: StyleV, t: Seq<char>, out: Seq<char>)
    requires
        st.obfuscated != Some(true),
        ansi_rel(st, t, out),
    ensures
        out == post_obf_spec(st, pre_obf_spec(st, t)),
{
}

/// The ANSI escape that opens `c`.
fn color_escape_exec(c: &Color) -> (r: String)
    ensures
        r@ == color_escape(*c),
{
    match c {
        Color::Named(n) => {
            let s: &str = match n {
                NamedColor::Black => "\u{1b}[30m",
                NamedColor::DarkBlue => "\u{1b}[34m",
                NamedColor::DarkGreen => "\u{1b}[32m",
                NamedColor::DarkAqua => "\u{1b}[36m",
                NamedColor::DarkRed => "\u{1b}[31m",
                NamedColor::DarkPurple => "\u{1b}[35m",
                NamedColor::Gold => "\u{1b}[33m",
                NamedColor::Gray => "\u{1b}[37m",
                NamedColor::DarkGray => "\u{1b}[90m",
                NamedColor::Blue => "\u{1b}[94m",
                NamedColor::Green => "\u{1b}[92m",
                NamedColor::Aqua => "\u{1b}[96m",
                NamedColor::Red => "\u{1b}[91m",
                NamedColor::LightPurple => "\u{1b}[95m",
                NamedColor::Yellow => "\u{1b}[93m",
                NamedColor::White => "\u{1b}[97m",
            };
            s.to_owned()
        },
        Color::Rgb(rgb) => {
            let mut s = "\u{1b}[38;2;".to_owned();
            s.append(dec_u32(rgb.red as u32).as_str());
            s.append(";");
            s.append(dec_u32(rgb.green as u32).as_str());
            s.append(";");
            s.append(dec_u32(rgb.blue as u32).as_str());
            s.append("m");
            proof {
                assert(s@ =~= color_escape(*c));
            }
            s
        },
    }
}

/// `open_esc`, the text, then the reset escape.
fn esc_wrap_exec(open_esc: &str, s: &str) -> (r: String)
    ensures
        r@ == esc_wrap(open_esc@, s@),
{
    let mut out = open_esc.to_owned();
    out.append(s);
    out.append("\u{1b}[0m");
    out
}

impl Style {
    /// Apply this style's attributes to `text` as ANSI escapes, in the fixed
    /// order color, bold, italic, underline, strikethrough, obfuscation,
    /// shadow.
    pub fn apply_ansi(&self, text: &str) -> (r: String)
        ensures
            ansi_rel(self@, text@, r@),
    {
        let mut out: String = text.to_owned();
        if let Some(c) = &self.color {
            let esc = color_escape_exec(c);
            out = esc_wrap_exec(esc.as_str(), out.as_str());
        }
        if let Some(b) = self.bold {
            if b {
                out = esc_wrap_exec("\u{1b}[1m", out.as_str());
            }
        }
        if let Some(b) = self.italic {
            if b {
                out = esc_wrap_exec("\u{1b}[3m", out.as_str());
            }
        }
        if let Some(b) = self.underlined {
            if b {
                out = esc_wrap_exec("\u{1b}[4m", out.as_str());
            }
        }
        if let Some(b) = self.strikethrough {
            if b {
                out = esc_wrap_exec("\u{1b}[9m", out.as_str());
            }
        }
        proof {
            assert(out@ == pre_obf_spec(self@, text@));
        }
        if let Some(b) = self.obfuscated {
            if b {
                out = obfuscate_text(out.as_str());
            }
        }
        let ghost mid = out@;
        proof {
            assert(obf_step(self@, pre_obf_spec(self@, text@), mid));
        }
        if self.shadow_color.is_some() {
            let mut shadowed = "\u{1b}[2m".to_owned();
            shadowed.append(out.as_str());
            shadowed.append("\u{1b}[22m");
            out = shadowed;
        }
        proof {
            assert(out@ == post_obf_spec(self@, mid));
        }
        out
    }
}

/// The hyperlink target of a click action.
pub open spec fn click_target_spec(c: ClickV) -> Seq<char> {
    match c {
        ClickV::OpenUrl { url } => url,
        ClickV::OpenFile { path } => "file://"@ + path,
        ClickV::RunCommand { command } => "mc:run_command:"@ + command,
        ClickV::SuggestCommand { command } => "mc:suggest_command:"@ + command,
        ClickV::ChangePage { page } => "mc:change_page:"@ + page,
        ClickV::CopyToClipboard { value } => "mc:copy_to_clipboard:"@ + value,
    }
}

/// An OSC-8 hyperlink around `visible` pointing at `target`.
pub open spec fn osc8_spec(target: Seq<char>, visible: Seq<char>) -> Seq<char> {
    "\u{1b}]8;;"@ + target + "\u{1b}\\"@ + visible + "\u{1b}]8;;"@ + "\u{1b}\\"@
}

/// The hyperlink target of a click action.
pub fn click_target(click: &ClickEvent) -> (r: String)
    ensures
        r@ == click_target_spec(click@),
{
    match click {
        ClickEvent::OpenUrl { url } => url.clone(),
        ClickEvent::OpenFile { path } => {
            let mut s = "file://".to_owned();
            s.append(path.as_str());
            s
        },
        ClickEvent::RunCommand { command } => {
            let mut s = "mc:run_command:".to_owned();
            s.append(command.as_str());
            s
        },
        ClickEvent::SuggestCommand { command } => {
            let mut s = "mc:suggest_command:".to_owned();
            s.append(command.as_str());
            s
        },
        ClickEvent::ChangePage { page } => {
            let mut s = "mc:change_page:".to_owned();
            s.append(page.as_str());
            s
        },
        ClickEvent::CopyToClipboard { value } => {
            let mut s = "mc:copy_to_clipboard:".to_owned();
            s.append(value.as_str());
            s
        },
    }
}

/// An OSC-8 hyperlink around `visible` pointing at `target`.
pub fn osc8_wrap(target: &str, visible: &str) -> (r: String)
    ensures
        r@ == osc8_spec(target@, visible@),
{
    let mut s = "\u{1b}]8;;".to_owned();
    s.append(target);
    s.append("\u{1b}\\");
    s.append(visible);
    s.append("\u{1b}]8;;");
    s.append("\u{1b}\\");
    s
}

/// Wrap `visible_text` in a hyperlink whose target names the click action.
pub fn wrap_click_event_osc8(click: &ClickEvent, visible_text: &str) -> (r: String)
    ensures
        r@ == osc8_spec(click_target_spec(click@), visible_text@),
{
    let target = click_target(click);
    osc8_wrap(target.as_str(), visible_text)
}

/// One past the first ASCII letter at or after `i`, or the end: where an
/// ANSI escape that began before `i` stops being consumed.
pub open spec fn esc_end(s: Seq<char>, i: int) -> int
    decreases s.len() - i,
    when 0 <= i <= s.len()
{
    if i >= s.len() {
        i
    } else if is_ascii_alpha_char(s[i]) {
        i + 1
    } else {
        esc_end(s, i + 1)
    }
}

/// The consumed stretch stays inside the string.
pub proof fn lemma_esc_end(s: Seq<char>, i: int)
    requires
        0 <= i <= s.len(),
    ensures
        i <= esc_end(s, i) <= s.len(),
    decreases s.len() - i,
{
    if i < s.len() && !is_ascii_alpha_char(s[i]) {
        lemma_esc_end(s, i + 1);
    }
}

/// `s[i..]` with every ANSI escape removed: an escape character starts a
/// stretch that ends with the first ASCII letter (or the string's end).
pub open spec fn strip_from(s: Seq<char>, i: int) -> Seq<char>
    decreases s.len() - i,
    when 0 <= i <= s.len()
    via strip_from_dec
{
    if i >= s.len() {
        Seq::empty()
    } else if s[i] == '\u{1b}' {
        strip_from(s, esc_end(s, i + 1))
    } else {
        seq![s[i]] + strip_from(s, i + 1)
    }
}

#[via_fn]
proof fn strip_from_dec(s: Seq<char>, i: int) {
    if 0 <= i && i < s.len() && s[i] == '\u{1b}' {
        lemma_esc_end(s, i + 1);
    }
}

/// `s` with every ANSI escape removed.
pub open spec fn strip_ansi(s: Seq<char>) -> Seq<char> {
    strip_from(s, 0)
}

/// One past the first ASCII letter at or after `start`, or the end.
fn esc_end_exec(s: &str, n: usize, start: usize) -> (j: usize)
    requires
        n == s@.len(),
        start <= n,
    ensures
        j as int == esc_end(s@, start as int),
        start <= j <= n,
{
    let mut cur = start;
    while cur < n
        invariant
            start <= cur <= n,
            n == s@.len(),
            esc_end(s@, start as int) == esc_end(s@, cur as int),
        decreases n - cur,
    {
        if is_ascii_alpha(s.get_char(cur)) {
            return cur + 1;
        }
        cur = cur + 1;
    }
    cur
}

/// Strip every ANSI escape from `s`: an escape character and everything up
/// to and including the next ASCII letter is dropped.
pub fn remove_ansi_color_code(s: &str) -> (r: String)
    ensures
        r@ == strip_ansi(s@),
{
    let n = s.unicode_len();
    let mut out = String::new();
    let mut i: usize = 0;
    while i < n
        invariant
            0 <= i <= n,
            n == s@.len(),
            out@ + strip_from(s@, i as int) == strip_from(s@, 0),
        decreases n - i,
    {
        let c = s.get_char(i);
        if c == '\u{1b}' {
            let j = esc_end_exec(s, n, i + 1);
            proof {
                lemma_esc_end(s@, i + 1);
            }
            i = j;
        } else {
            push_char(&mut out, c);
            proof {
                assert(out@ + strip_from(s@, i + 1) =~= strip_from(s@, 0));
            }
            i = i + 1;
        }
    }
    proof {
        assert(out@ =~= out@ + strip_from(s@, n as int));
    }
    out
}

} // verus!
