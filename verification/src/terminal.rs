//! The terminal panel's reading of a line of agent output: ANSI colour and
//! bold codes (SGR sequences) are interpreted, and the text is cut into words
//! and white space, words that are web links being marked.
use crate::text::{char_is_white_space, has_prefix, is_white_space, starts_with};
use vstd::prelude::*;
use vstd::string::StringSliceAdditionalSpecFns;

verus! {

/// A colour, as red, green and blue components.
#[derive(Clone, Copy, PartialEq, Eq, Structural, Debug)]
pub struct Rgb {
    pub r: u8,
    pub g: u8,
    pub b: u8,
}

pub open spec fn rgb(r: u8, g: u8, b: u8) -> Rgb {
    Rgb { r, g, b }
}

/// Plain text: light grey.
pub open spec fn plain_color() -> Rgb {
    rgb(210, 210, 210)
}

/// Web links.
pub open spec fn link_color() -> Rgb {
    rgb(66, 133, 244)
}

/// The colour and weight text is written in.
#[derive(Clone, Copy, PartialEq, Eq, Structural, Debug)]
pub struct Style {
    pub color: Rgb,
    pub bold: bool,
}

/// One piece of a line: a word or a single white-space character.
pub struct TerminalToken {
    pub text: String,
    pub color: Rgb,
    pub bold: bool,
    pub is_link: bool,
}

pub struct TokenView {
    pub text: Seq<char>,
    pub color: Rgb,
    pub bold: bool,
    pub is_link: bool,
}

impl View for TerminalToken {
    type V = TokenView;

    open spec fn view(&self) -> TokenView {
        TokenView { text: self.text@, color: self.color, bold: self.bold, is_link: self.is_link }
    }
}

pub open spec fn tokens_view(v: Seq<TerminalToken>) -> Seq<TokenView> {
    v.map_values(|t: TerminalToken| t@)
}

/// A word that is a web link: it starts with `http://` or `https://`.
pub open spec fn is_link_text(w: Seq<char>) -> bool {
    has_prefix(w, "http://"@) || has_prefix(w, "https://"@)
}

pub fn is_terminal_link(token: &str) -> (r: bool)
    ensures
        r == is_link_text(token@),
{
    starts_with(token, "http://") || starts_with(token, "https://")
}

pub open spec fn word_token(w: Seq<char>, st: Style) -> TokenView {
    let link = is_link_text(w);
    TokenView {
        text: w,
        color: if link {
            link_color()
        } else {
            st.color
        },
        bold: st.bold || link,
        is_link: link,
    }
}

pub open spec fn space_token(c: char, st: Style) -> TokenView {
    TokenView { text: seq![c], color: st.color, bold: st.bold, is_link: false }
}

/// The tokens of `rest`, after the tokens `out` and with the word `word`
/// begun: each maximal run of non-white-space characters is a word, each
/// white-space character a token of its own.
pub open spec fn split_words(out: Seq<TokenView>, word: Seq<char>, rest: Seq<char>, st: Style) -> Seq<
    TokenView,
>
    decreases rest.len(),
{
    if rest.len() == 0 {
        if word.len() == 0 {
            out
        } else {
            out.push(word_token(word, st))
        }
    } else if is_white_space(rest[0]) {
        let out1 = if word.len() == 0 {
            out
        } else {
            out.push(word_token(word, st))
        };
        split_words(out1.push(space_token(rest[0], st)), Seq::empty(), rest.drop_first(), st)
    } else {
        split_words(out, word.push(rest[0]), rest.drop_first(), st)
    }
}

/// The style after one SGR parameter: `0` resets, `1` is bold, `31`/`91`
/// red, `32`/`92` green, `33`/`93` yellow, `34`/`94` blue, `90` dark grey;
/// others change nothing.
pub open spec fn apply_param(st: Style, p: Seq<u8>) -> Style {
    if p == seq![48u8] {
        Style { color: plain_color(), bold: false }
    } else if p == seq![49u8] {
        Style { bold: true, ..st }
    } else if p == seq![51u8, 49u8] || p == seq![57u8, 49u8] {
        Style { color: rgb(255, 85, 85), ..st }
    } else if p == seq![51u8, 50u8] || p == seq![57u8, 50u8] {
        Style { color: rgb(80, 250, 123), ..st }
    } else if p == seq![51u8, 51u8] || p == seq![57u8, 51u8] {
        Style { color: rgb(241, 250, 140), ..st }
    } else if p == seq![51u8, 52u8] || p == seq![57u8, 52u8] {
        Style { color: rgb(139, 233, 253), ..st }
    } else if p == seq![57u8, 48u8] {
        Style { color: rgb(120, 120, 120), ..st }
    } else {
        st
    }
}

/// The style after the parameters `rest`, separated by `;`, the current
/// parameter having begun with `part`.
pub open spec fn apply_params(st: Style, part: Seq<u8>, rest: Seq<u8>) -> Style
    decreases rest.len(),
{
    if rest.len() == 0 {
        apply_param(st, part)
    } else if rest[0] == 59u8 {
        apply_params(apply_param(st, part), Seq::empty(), rest.drop_first())
    } else {
        apply_params(st, part.push(rest[0]), rest.drop_first())
    }
}

pub open spec fn is_param_byte(c: u8) -> bool {
    (48u8 <= c && c <= 57u8) || c == 59u8
}

/// The end of the run of parameter bytes (digits and `;`) starting at `j`.
pub open spec fn params_end(b: Seq<u8>, j: int) -> int
    decreases b.len() - j,
{
    if j < b.len() && is_param_byte(b[j]) {
        params_end(b, j + 1)
    } else {
        j
    }
}

pub open spec fn flush(out: Seq<TokenView>, text: Seq<char>, st: Style) -> Seq<TokenView> {
    if text.len() == 0 {
        out
    } else {
        split_words(out, Seq::empty(), text, st)
    }
}

/// The tokens of the bytes `b` from `i` on, after the tokens `out`, with the
/// pending text `text` in style `st`. An escape byte followed by `[` ends
/// the pending text; if the parameter bytes after it are closed by `m`
/// they set the style, otherwise the escape and `[` are kept as text and the
/// parameter bytes are dropped. Every other byte is one character of text
/// (its Latin-1 reading).
pub open spec fn scan_line(out: Seq<TokenView>, b: Seq<u8>, i: int, text: Seq<char>, st: Style) -> Seq<
    TokenView,
>
    decreases b.len() - i,
{
    if i < 0 || i >= b.len() {
        flush(out, text, st)
    } else if b[i] == 27u8 && i + 1 < b.len() && b[i + 1] == 91u8 {
        let j = params_end(b, i + 2);
        proof {
            lemma_params_end(b, i + 2);
        }
        if j < b.len() && b[j] == 109u8 {
            scan_line(
                flush(out, text, st),
                b,
                j + 1,
                Seq::empty(),
                apply_params(st, Seq::empty(), b.subrange(i + 2, j)),
            )
        } else {
            scan_line(flush(out, text, st), b, j, seq!['\u{1b}', '['], st)
        }
    } else {
        scan_line(out, b, i + 1, text.push(b[i] as char), st)
    }
}

pub open spec fn initial_style() -> Style {
    Style { color: plain_color(), bold: false }
}

/// The tokens of a line of output.
pub open spec fn line_tokens(line: Seq<u8>) -> Seq<TokenView> {
    scan_line(Seq::empty(), line, 0, Seq::empty(), initial_style())
}

pub proof fn lemma_params_end(b: Seq<u8>, j: int)
    requires
        0 <= j <= b.len(),
    ensures
        j <= params_end(b, j) <= b.len(),
        forall|k: int| j <= k < params_end(b, j) ==> is_param_byte(b[k]),
        params_end(b, j) < b.len() ==> !is_param_byte(b[params_end(b, j)]),
    decreases b.len() - j,
{
    if j < b.len() && is_param_byte(b[j]) {
        lemma_params_end(b, j + 1);
    }
}

fn push_words(tokens: &mut Vec<TerminalToken>, text: &Vec<char>, st: Style)
    ensures
        tokens_view(final(tokens)@) == split_words(tokens_view(old(tokens)@), Seq::empty(), text@, st),
{
    let mut word: Vec<char> = Vec::new();
    let mut i: usize = 0;
    proof {
        assert(text@.skip(0) =~= text@);
        assert(word@ =~= Seq::<char>::empty());
    }
    while i < text.len()
        invariant
            i <= text.len(),
            split_words(tokens_view(tokens@), word@, text@.skip(i as int), st) == split_words(
                tokens_view(old(tokens)@),
                Seq::empty(),
                text@,
                st,
            ),
        decreases text.len() - i,
    {
        let c = text[i];
        let ghost rest = text@.skip(i as int);
        let ghost tv0 = tokens_view(tokens@);
        let ghost w0 = word@;
        proof {
            assert(rest[0] == c);
            assert(rest.drop_first() =~= text@.skip(i + 1));
        }
        if char_is_white_space(c) {
            proof {
                let out1 = if w0.len() == 0 { tv0 } else { tv0.push(word_token(w0, st)) };
                assert(split_words(tv0, w0, rest, st) == split_words(out1.push(space_token(c, st)), Seq::empty(), rest.drop_first(), st));
            }
            if word.len() > 0 {
                let t = word_token_exec(&word, st);
                proof {
                    assert(tokens_view(tokens@.push(t)) =~= tokens_view(tokens@).push(t@));
                }
                tokens.push(t);
                word = Vec::new();
                assert(word@ =~= Seq::<char>::empty());
            }
            let mut s = String::new();
            s.push(c);
            let t = TerminalToken { text: s, color: st.color, bold: st.bold, is_link: false };
            proof {
                assert(s@ =~= seq![c]);
                assert(tokens_view(tokens@.push(t)) =~= tokens_view(tokens@).push(t@));
            }
            tokens.push(t);
            assert(word@ =~= Seq::<char>::empty());
            assert(tokens_view(tokens@) == (if w0.len() == 0 { tv0 } else { tv0.push(word_token(w0, st)) }).push(space_token(c, st)));
        } else {
            proof {
                assert(split_words(tv0, w0, rest, st) == split_words(tv0, w0.push(c), rest.drop_first(), st));
            }
            word.push(c);
        }
        assert(split_words(tokens_view(tokens@), word@, text@.skip(i + 1), st) == split_words(tv0, w0, rest, st));
        i = i + 1;
    }
    proof {
        assert(text@.skip(text@.len() as int) =~= Seq::<char>::empty());
    }
    if word.len() > 0 {
        let t = word_token_exec(&word, st);
        proof {
            assert(tokens_view(tokens@.push(t)) =~= tokens_view(tokens@).push(t@));
        }
        tokens.push(t);
    }
}

fn string_of(v: &Vec<char>) -> (s: String)
    ensures
        s@ == v@,
{
    let mut s = String::new();
    let mut i: usize = 0;
    while i < v.len()
        invariant
            i <= v.len(),
            s@ == v@.subrange(0, i as int),
        decreases v.len() - i,
    {
        s.push(v[i]);
        proof {
            assert(v@.subrange(0, i + 1) =~= v@.subrange(0, i as int).push(v@[i as int]));
        }
        i = i + 1;
    }
    assert(v@.subrange(0, v@.len() as int) =~= v@);
    s
}

fn word_token_exec(word: &Vec<char>, st: Style) -> (t: TerminalToken)
    ensures
        t@ == word_token(word@, st),
{
    let text = string_of(word);
    let link = is_terminal_link(text.as_str());
    TerminalToken {
        text,
        color: if link {
            Rgb { r: 66, g: 133, b: 244 }
        } else {
            st.color
        },
        bold: st.bold || link,
        is_link: link,
    }
}

/// Cuts a text into word and white-space tokens in the style `st`.
pub fn push_tokens(tokens: &mut Vec<TerminalToken>, text: &str, st: Style)
    ensures
        tokens_view(final(tokens)@) == split_words(tokens_view(old(tokens)@), Seq::empty(), text@, st),
{
    let n = text.unicode_len();
    let mut chars: Vec<char> = Vec::new();
    let mut i: usize = 0;
    while i < n
        invariant
            n == text@.len(),
            i <= n,
            chars@ == text@.subrange(0, i as int),
        decreases n - i,
    {
        chars.push(text.get_char(i));
        proof {
            assert(text@.subrange(0, i + 1) =~= text@.subrange(0, i as int).push(text@[i as int]));
        }
        i = i + 1;
    }
    assert(text@.subrange(0, n as int) =~= text@);
    push_words(tokens, &chars, st);
}

fn apply_param_exec(st: Style, p: &Vec<u8>) -> (r: Style)
    ensures
        r == apply_param(st, p@),
{
    let n = p.len();
    if n == 1 && p[0] == 48u8 {
        assert(p@ =~= seq![48u8]);
        Style { color: Rgb { r: 210, g: 210, b: 210 }, bold: false }
    } else if n == 1 && p[0] == 49u8 {
        assert(p@ =~= seq![49u8]);
        Style { bold: true, ..st }
    } else if n == 2 && (p[0] == 51u8 || p[0] == 57u8) && 49u8 <= p[1] && p[1] <= 52u8 {
        proof {
            if p[0] == 51u8 {
                assert(p@ =~= seq![51u8, p[1]]);
            } else {
                assert(p@ =~= seq![57u8, p[1]]);
            }
            assert(p@ != seq![48u8] && p@ != seq![49u8]);
        }
        if p[1] == 49u8 {
            Style { color: Rgb { r: 255, g: 85, b: 85 }, ..st }
        } else if p[1] == 50u8 {
            Style { color: Rgb { r: 80, g: 250, b: 123 }, ..st }
        } else if p[1] == 51u8 {
            Style { color: Rgb { r: 241, g: 250, b: 140 }, ..st }
        } else {
            Style { color: Rgb { r: 139, g: 233, b: 253 }, ..st }
        }
    } else if n == 2 && p[0] == 57u8 && p[1] == 48u8 {
        assert(p@ =~= seq![57u8, 48u8]);
        Style { color: Rgb { r: 120, g: 120, b: 120 }, ..st }
    } else {
        proof {
            if n == 1 {
                assert(p@ != seq![51u8, 49u8] && p@ != seq![57u8, 49u8]);
                assert(p@ != seq![51u8, 50u8] && p@ != seq![57u8, 50u8]);
                assert(p@ != seq![51u8, 51u8] && p@ != seq![57u8, 51u8]);
                assert(p@ != seq![51u8, 52u8] && p@ != seq![57u8, 52u8]);
                assert(p@ != seq![57u8, 48u8]);
                if p@ == seq![48u8] {
                    assert(p@[0] == 48u8);
                }
                if p@ == seq![49u8] {
                    assert(p@[0] == 49u8);
                }
            } else if n == 2 {
                assert(p@ != seq![48u8] && p@ != seq![49u8]);
                if p@ == seq![51u8, 49u8] || p@ == seq![51u8, 50u8] || p@ == seq![51u8, 51u8]
                    || p@ == seq![51u8, 52u8] || p@ == seq![57u8, 49u8] || p@ == seq![57u8, 50u8]
                    || p@ == seq![57u8, 51u8] || p@ == seq![57u8, 52u8] || p@ == seq![57u8, 48u8] {
                    assert(p@[0] == p[0] && p@[1] == p[1]);
                }
            } else {
                assert(p@.len() != 1 && p@.len() != 2);
                assert(seq![48u8].len() == 1);
                assert(seq![51u8, 49u8].len() == 2);
            }
        }
        st
    }
}

/// The style after the SGR parameters `b[from..to]`.
fn apply_params_exec(st: Style, b: &[u8], from: usize, to: usize) -> (r: Style)
    requires
        from <= to <= b@.len(),
    ensures
        r == apply_params(st, Seq::empty(), b@.subrange(from as int, to as int)),
{
    let mut cur = st;
    let mut part: Vec<u8> = Vec::new();
    let mut i: usize = from;
    while i < to
        invariant
            from <= i <= to <= b@.len(),
            apply_params(cur, part@, b@.subrange(i as int, to as int)) == apply_params(
                st,
                Seq::empty(),
                b@.subrange(from as int, to as int),
            ),
        decreases to - i,
    {
        let c = b[i];
        proof {
            let rest = b@.subrange(i as int, to as int);
            assert(rest[0] == c);
            assert(rest.drop_first() =~= b@.subrange(i + 1, to as int));
        }
        if c == 59u8 {
            cur = apply_param_exec(cur, &part);
            part = Vec::new();
            assert(part@ =~= Seq::<u8>::empty());
        } else {
            part.push(c);
        }
        i = i + 1;
    }
    proof {
        assert(b@.subrange(to as int, to as int) =~= Seq::<u8>::empty());
    }
    apply_param_exec(cur, &part)
}

/// Reads a line of agent output into tokens: SGR colour and bold codes set
/// the style of the text after them, the text is cut into words and single
/// white-space characters, and links are marked.
pub fn parse_ansi_line(line: &str) -> (r: Vec<TerminalToken>)
    ensures
        tokens_view(r@) == line_tokens(line.spec_bytes()),
{
    let b = line.as_bytes();
    let n = b.len();
    let mut tokens: Vec<TerminalToken> = Vec::new();
    let mut text: Vec<char> = Vec::new();
    let mut st = Style { color: Rgb { r: 210, g: 210, b: 210 }, bold: false };
    let mut i: usize = 0;
    proof {
        assert(tokens_view(tokens@) =~= Seq::<TokenView>::empty());
        assert(text@ =~= Seq::<char>::empty());
        assert(st == initial_style());
    }
    while i < n
        invariant
            n == b@.len(),
            b@ == line.spec_bytes(),
            i <= n,
            scan_line(tokens_view(tokens@), b@, i as int, text@, st) == line_tokens(b@),
        decreases n - i,
    {
        if b[i] == 27u8 && i + 1 < n && b[i + 1] == 91u8 {
            if text.len() > 0 {
                push_words(&mut tokens, &text, st);
                text = Vec::new();
            }
            proof {
                assert(text@ =~= Seq::<char>::empty());
                lemma_params_end(b@, i + 2);
            }
            let start = i + 2;
            let mut j = start;
            while j < n && (48u8 <= b[j] && b[j] <= 57u8 || b[j] == 59u8)
                invariant
                    n == b@.len(),
                    start <= j <= n,
                    params_end(b@, start as int) == params_end(b@, j as int),
                decreases n - j,
            {
                j = j + 1;
            }
            if j < n && b[j] == 109u8 {
                st = apply_params_exec(st, b, start, j);
                i = j + 1;
            } else {
                text.push('\u{1b}');
                text.push('[');
                assert(text@ =~= seq!['\u{1b}', '[']);
                i = j;
            }
        } else {
            text.push(b[i] as char);
            i = i + 1;
        }
    }
    if text.len() > 0 {
        push_words(&mut tokens, &text, st);
    }
    tokens
}

/// The texts of the tokens, one after the other.
pub open spec fn joined_text(ts: Seq<TokenView>) -> Seq<char>
    decreases ts.len(),
{
    if ts.len() == 0 {
        Seq::empty()
    } else {
        joined_text(ts.drop_last()) + ts.last().text
    }
}

/// The characters of the line from `i` on that are shown: the bytes read as
/// characters, without the SGR sequences (an escape and `[` not closed by
/// `m` stay, the parameter bytes after them do not).
pub open spec fn shown_text(b: Seq<u8>, i: int) -> Seq<char>
    decreases b.len() - i,
{
    if i < 0 || i >= b.len() {
        Seq::empty()
    } else if b[i] == 27u8 && i + 1 < b.len() && b[i + 1] == 91u8 {
        let j = params_end(b, i + 2);
        proof {
            lemma_params_end(b, i + 2);
        }
        if j < b.len() && b[j] == 109u8 {
            shown_text(b, j + 1)
        } else {
            seq!['\u{1b}', '['] + shown_text(b, j)
        }
    } else {
        seq![b[i] as char] + shown_text(b, i + 1)
    }
}

proof fn lemma_joined_push(ts: Seq<TokenView>, t: TokenView)
    ensures
        joined_text(ts.push(t)) == joined_text(ts) + t.text,
{
    assert(ts.push(t).drop_last() =~= ts);
}

proof fn lemma_split_words_text(out: Seq<TokenView>, word: Seq<char>, rest: Seq<char>, st: Style)
    ensures
        joined_text(split_words(out, word, rest, st)) == joined_text(out) + word + rest,
    decreases rest.len(),
{
    if rest.len() == 0 {
        if word.len() == 0 {
            assert(joined_text(out) + word + rest =~= joined_text(out));
        } else {
            lemma_joined_push(out, word_token(word, st));
            assert(joined_text(out) + word + rest =~= joined_text(out) + word);
        }
    } else if is_white_space(rest[0]) {
        let out1 = if word.len() == 0 {
            out
        } else {
            out.push(word_token(word, st))
        };
        if word.len() == 0 {
            assert(joined_text(out1) == joined_text(out) + word) by {
                assert(joined_text(out) + word =~= joined_text(out));
            }
        } else {
            lemma_joined_push(out, word_token(word, st));
        }
        lemma_joined_push(out1, space_token(rest[0], st));
        lemma_split_words_text(out1.push(space_token(rest[0], st)), Seq::empty(), rest.drop_first(), st);
        assert(joined_text(out) + word + rest =~= joined_text(out) + word + seq![rest[0]] + Seq::empty() + rest.drop_first());
    } else {
        lemma_split_words_text(out, word.push(rest[0]), rest.drop_first(), st);
        assert(joined_text(out) + word + rest =~= joined_text(out) + word.push(rest[0]) + rest.drop_first());
    }
}

proof fn lemma_flush_text(out: Seq<TokenView>, text: Seq<char>, st: Style)
    ensures
        joined_text(flush(out, text, st)) == joined_text(out) + text,
{
    if text.len() == 0 {
        assert(joined_text(out) + text =~= joined_text(out));
    } else {
        lemma_split_words_text(out, Seq::empty(), text, st);
        assert(joined_text(out) + Seq::<char>::empty() + text =~= joined_text(out) + text);
    }
}

proof fn lemma_scan_text(out: Seq<TokenView>, b: Seq<u8>, i: int, text: Seq<char>, st: Style)
    requires
        0 <= i,
    ensures
        joined_text(scan_line(out, b, i, text, st)) == joined_text(out) + text + shown_text(b, i),
    decreases b.len() - i,
{
    if i >= b.len() {
        lemma_flush_text(out, text, st);
        assert(joined_text(out) + text + Seq::<char>::empty() =~= joined_text(out) + text);
    } else if b[i] == 27u8 && i + 1 < b.len() && b[i + 1] == 91u8 {
        let j = params_end(b, i + 2);
        lemma_params_end(b, i + 2);
        lemma_flush_text(out, text, st);
        if j < b.len() && b[j] == 109u8 {
            lemma_scan_text(
                flush(out, text, st),
                b,
                j + 1,
                Seq::empty(),
                apply_params(st, Seq::empty(), b.subrange(i + 2, j)),
            );
            assert(joined_text(out) + text + Seq::<char>::empty() + shown_text(b, j + 1) =~= joined_text(out) + text + shown_text(b, j + 1));
        } else {
            lemma_scan_text(flush(out, text, st), b, j, seq!['\u{1b}', '['], st);
            assert(joined_text(out) + text + seq!['\u{1b}', '['] + shown_text(b, j) =~= joined_text(out) + text + (seq!['\u{1b}', '['] + shown_text(b, j)));
        }
    } else {
        lemma_scan_text(out, b, i + 1, text.push(b[i] as char), st);
        assert(joined_text(out) + text.push(b[i] as char) + shown_text(b, i + 1) =~= joined_text(out) + text + (seq![b[i] as char] + shown_text(b, i + 1)));
    }
}

/// Reading a line into tokens loses and adds nothing of what is shown: the
/// tokens' texts, one after the other, are the line without its SGR
/// sequences.
pub proof fn tokens_keep_text(line: Seq<u8>)
    ensures
        joined_text(line_tokens(line)) == shown_text(line, 0),
{
    lemma_scan_text(Seq::empty(), line, 0, Seq::empty(), initial_style());
    assert(joined_text(Seq::<TokenView>::empty()) + Seq::<char>::empty() + shown_text(line, 0) =~= shown_text(line, 0));
}

/// A colour and weight given by their parts.
pub open spec fn style_of(r: u8, g: u8, b: u8, bold: bool) -> Style {
    Style { color: Rgb { r: r, g: g, b: b }, bold: bold }
}

/// What each SGR parameter does to the style, for every style: `0` resets
/// to plain light grey, not bold; `1` makes the text bold; `31` and `91`
/// make it red (255, 85, 85), `32` and `92` green (80, 250, 123), `33` and
/// `93` yellow (241, 250, 140), `34` and `94` cyan (139, 233, 253), and `90`
/// dark grey (120, 120, 120), each keeping the weight; the parameters are
/// their ASCII digits.
pub proof fn sgr_parameters(st: Style)
    ensures
        apply_param(st, seq![48u8]) == style_of(210, 210, 210, false),
        apply_param(st, seq![49u8]) == style_of(st.color.r, st.color.g, st.color.b, true),
        apply_param(st, seq![51u8, 49u8]) == style_of(255, 85, 85, st.bold),
        apply_param(st, seq![57u8, 49u8]) == style_of(255, 85, 85, st.bold),
        apply_param(st, seq![51u8, 50u8]) == style_of(80, 250, 123, st.bold),
        apply_param(st, seq![57u8, 50u8]) == style_of(80, 250, 123, st.bold),
        apply_param(st, seq![51u8, 51u8]) == style_of(241, 250, 140, st.bold),
        apply_param(st, seq![57u8, 51u8]) == style_of(241, 250, 140, st.bold),
        apply_param(st, seq![51u8, 52u8]) == style_of(139, 233, 253, st.bold),
        apply_param(st, seq![57u8, 52u8]) == style_of(139, 233, 253, st.bold),
        apply_param(st, seq![57u8, 48u8]) == style_of(120, 120, 120, st.bold),
{
    let one = seq![48u8];
    assert(seq![49u8] != one) by { assert(seq![49u8][0] != one[0]); }
    let pairs = seq![
        seq![51u8, 49u8], seq![57u8, 49u8], seq![51u8, 50u8], seq![57u8, 50u8],
        seq![51u8, 51u8], seq![57u8, 51u8], seq![51u8, 52u8], seq![57u8, 52u8],
        seq![57u8, 48u8],
    ];
    assert forall|i: int, j: int| 0 <= i < pairs.len() && 0 <= j < pairs.len() && i != j implies
        #[trigger] pairs[i] != #[trigger] pairs[j] by {
        if pairs[i] == pairs[j] {
            assert(pairs[i][0] == pairs[j][0] && pairs[i][1] == pairs[j][1]);
        }
    }
    assert(seq![51u8, 49u8] != one && seq![51u8, 49u8] != seq![49u8]);
}

/// How a word and a white-space character are shown: a word starting with
/// `http://` or `https://` is a link, blue (66, 133, 244) and bold; any
/// other word, and every white-space character, keeps the current colour and
/// weight and is no link. Text starts plain light grey, not bold.
pub proof fn token_styles(w: Seq<char>, c: char, st: Style)
    ensures
        initial_style() == style_of(210, 210, 210, false),
        word_token(w, st).text == w,
        word_token(w, st).is_link == (crate::text::has_prefix(w, "http://"@)
            || crate::text::has_prefix(w, "https://"@)),
        word_token(w, st).is_link ==> word_token(w, st).color == (Rgb { r: 66, g: 133, b: 244 })
            && word_token(w, st).bold,
        !word_token(w, st).is_link ==> word_token(w, st).color == st.color && word_token(w, st).bold
            == st.bold,
        space_token(c, st).text == seq![c],
        space_token(c, st).color == st.color,
        space_token(c, st).bold == st.bold,
        !space_token(c, st).is_link,
{
}

} // verus!
