//! ANSI styling of terminal text.
use crate::text::{cat, cat3, chars_of, is_prefix, lit, replace_all, replace_exec, string_of};
use vstd::prelude::*;

verus! {

/// The foreground colours the output uses.
#[derive(Clone, Copy, Debug, PartialEq, Eq, Structural)]
pub enum Color {
    Red,
    Green,
    Yellow,
    Blue,
    Cyan,
    Magenta,
    White,
}

/// `text` wrapped in the ANSI sequence `code` and a reset, when colours are on.
pub open spec fn style_spec(text: Seq<char>, code: Seq<char>, colors: bool) -> Seq<char> {
    if colors {
        "\x1b["@ + code + "m"@ + text + "\x1b[0m"@
    } else {
        text
    }
}

/// Wraps `text` in the ANSI style `code` when `colors` is set.
pub fn style(text: &str, code: &str, colors: bool) -> (r: String)
    ensures
        r@ == style_spec(text@, code@, colors),
{
    if colors {
        let head = cat3(&lit("\x1b["), &chars_of(code), &lit("m"));
        string_of(&cat3(&head, &chars_of(text), &lit("\x1b[0m")))
    } else {
        String::from_str(text)
    }
}

/// Bold text.
pub fn bold(text: &str, colors: bool) -> (r: String)
    ensures
        r@ == style_spec(text@, "1"@, colors),
{
    style(text, "1", colors)
}

/// Dimmed text.
pub fn dim(text: &str, colors: bool) -> (r: String)
    ensures
        r@ == style_spec(text@, "2"@, colors),
{
    style(text, "2", colors)
}

/// The ANSI foreground code of a colour.
pub open spec fn color_code(color: Color) -> Seq<char> {
    match color {
        Color::Red => "31"@,
        Color::Green => "32"@,
        Color::Yellow => "33"@,
        Color::Blue => "34"@,
        Color::Cyan => "36"@,
        Color::Magenta => "35"@,
        Color::White => "37"@,
    }
}

/// Text in a colour.
pub fn colorize(text: &str, color: Color, colors: bool) -> (r: String)
    ensures
        r@ == style_spec(text@, color_code(color), colors),
{
    let code = match color {
        Color::Red => "31",
        Color::Green => "32",
        Color::Yellow => "33",
        Color::Blue => "34",
        Color::Cyan => "36",
        Color::Magenta => "35",
        Color::White => "37",
    };
    style(text, code, colors)
}

/// A status word, always coloured.
pub fn status_text(text: &str, color: Color) -> (r: String)
    ensures
        r@ == style_spec(text@, color_code(color), true),
{
    colorize(text, color, true)
}

/// `text` without the ANSI sequences this output writes (resets, colours, bold, dim).
pub open spec fn strip_ansi_spec(text: Seq<char>) -> Seq<char> {
    let t0 = replace_all(text, "\x1b[0m"@, seq![]);
    let t1 = replace_all(t0, "\x1b[31m"@, seq![]);
    let t2 = replace_all(t1, "\x1b[32m"@, seq![]);
    let t3 = replace_all(t2, "\x1b[33m"@, seq![]);
    let t4 = replace_all(t3, "\x1b[34m"@, seq![]);
    let t5 = replace_all(t4, "\x1b[35m"@, seq![]);
    let t6 = replace_all(t5, "\x1b[36m"@, seq![]);
    let t7 = replace_all(t6, "\x1b[37m"@, seq![]);
    let t8 = replace_all(t7, "\x1b[1m"@, seq![]);
    replace_all(t8, "\x1b[2m"@, seq![])
}

fn remove_all(s: &[char], seqn: &str) -> (r: Vec<char>)
    requires
        seqn@.len() > 0,
    ensures
        r@ == replace_all(s@, seqn@, seq![]),
{
    let empty: Vec<char> = Vec::new();
    assert(empty@ =~= Seq::<char>::empty());
    replace_exec(s, &chars_of(seqn), &empty)
}

/// Removes the ANSI sequences that this output writes.
pub fn strip_ansi(text: &str) -> (r: String)
    ensures
        r@ == strip_ansi_spec(text@),
{
    proof {
        reveal_strlit("\x1b[0m");
        reveal_strlit("\x1b[31m");
        reveal_strlit("\x1b[32m");
        reveal_strlit("\x1b[33m");
        reveal_strlit("\x1b[34m");
        reveal_strlit("\x1b[35m");
        reveal_strlit("\x1b[36m");
        reveal_strlit("\x1b[37m");
        reveal_strlit("\x1b[1m");
        reveal_strlit("\x1b[2m");
    }
    let t = chars_of(text);
    let t = remove_all(&t, "\x1b[0m");
    let t = remove_all(&t, "\x1b[31m");
    let t = remove_all(&t, "\x1b[32m");
    let t = remove_all(&t, "\x1b[33m");
    let t = remove_all(&t, "\x1b[34m");
    let t = remove_all(&t, "\x1b[35m");
    let t = remove_all(&t, "\x1b[36m");
    let t = remove_all(&t, "\x1b[37m");
    let t = remove_all(&t, "\x1b[1m");
    let t = remove_all(&t, "\x1b[2m");
    string_of(&t)
}

/// `[text]`, with the ANSI sequences removed when colours are off.
pub open spec fn bracketed_spec(text: Seq<char>, colors: bool) -> Seq<char> {
    "["@ + (if colors { text } else { strip_ansi_spec(text) }) + "]"@
}

/// Puts `text` in square brackets.
pub fn bracketed(text: &str, colors: bool) -> (r: String)
    ensures
        r@ == bracketed_spec(text@, colors),
{
    let inner = if colors { chars_of(text) } else { chars_of(strip_ansi(text).as_str()) };
    string_of(&cat3(&lit("["), &inner, &lit("]")))
}

/// Replacing a sequence that starts with a character absent from `s` leaves `s` as it is.
proof fn lemma_replace_absent(s: Seq<char>, from: Seq<char>, to: Seq<char>)
    requires
        from.len() > 0,
        forall|i: int| 0 <= i < s.len() ==> s[i] != from[0],
    ensures
        replace_all(s, from, to) == s,
    decreases s.len(),
{
    if s.len() > 0 {
        assert(s.subrange(0, from.len() as int) != from || from.len() > s.len()) by {
            if from.len() <= s.len() {
                assert(s.subrange(0, from.len() as int)[0] == s[0]);
            }
        }
        lemma_replace_absent(s.drop_first(), from, to);
        assert(seq![s[0]] + s.drop_first() =~= s);
    }
}

/// Styling without colours leaves text as it is; removing ANSI sequences leaves text
/// without an escape character as it is, so that it is bracketed unchanged.
pub proof fn law_plain_text_is_unchanged(text: Seq<char>, code: Seq<char>)
    requires
        forall|i: int| 0 <= i < text.len() ==> text[i] != '\x1b',
    ensures
        style_spec(text, code, false) == text,
        strip_ansi_spec(text) == text,
        bracketed_spec(text, false) == "["@ + text + "]"@,
{
    reveal_strlit("\x1b[0m");
    reveal_strlit("\x1b[31m");
    reveal_strlit("\x1b[32m");
    reveal_strlit("\x1b[33m");
    reveal_strlit("\x1b[34m");
    reveal_strlit("\x1b[35m");
    reveal_strlit("\x1b[36m");
    reveal_strlit("\x1b[37m");
    reveal_strlit("\x1b[1m");
    reveal_strlit("\x1b[2m");
    lemma_replace_absent(text, "\x1b[0m"@, seq![]);
    lemma_replace_absent(text, "\x1b[31m"@, seq![]);
    lemma_replace_absent(text, "\x1b[32m"@, seq![]);
    lemma_replace_absent(text, "\x1b[33m"@, seq![]);
    lemma_replace_absent(text, "\x1b[34m"@, seq![]);
    lemma_replace_absent(text, "\x1b[35m"@, seq![]);
    lemma_replace_absent(text, "\x1b[36m"@, seq![]);
    lemma_replace_absent(text, "\x1b[37m"@, seq![]);
    lemma_replace_absent(text, "\x1b[1m"@, seq![]);
    lemma_replace_absent(text, "\x1b[2m"@, seq![]);
}


/// A style code of digits only, as the output writes them.
pub open spec fn is_digit_code(c: Seq<char>) -> bool {
    c.len() > 0 && forall|i: int| 0 <= i < c.len() ==> '0' <= #[trigger] c[i] && c[i] <= '9'
}

/// Text without the escape character.
pub open spec fn no_escape(s: Seq<char>) -> bool {
    forall|i: int| 0 <= i < s.len() ==> s[i] != '\x1b'
}

/// The opening sequence of style `c`.
pub open spec fn style_open(c: Seq<char>) -> Seq<char> {
    "\x1b["@ + c + "m"@
}

/// Removing a sequence that starts with the escape character passes over text
/// without one.
proof fn lemma_replace_skips_plain(x: Seq<char>, y: Seq<char>, from: Seq<char>)
    requires
        from.len() > 0,
        from[0] == '\x1b',
        no_escape(x),
    ensures
        replace_all(x + y, from, seq![]) == x + replace_all(y, from, seq![]),
    decreases x.len(),
{
    if x.len() > 0 {
        let s = x + y;
        assert(s[0] == x[0]);
        assert(!is_prefix(from, s)) by {
            if from.len() <= s.len() {
                assert(s.subrange(0, from.len() as int)[0] == s[0]);
            }
        }
        assert(s.drop_first() =~= x.drop_first() + y);
        lemma_replace_skips_plain(x.drop_first(), y, from);
        assert(seq![x[0]] + (x.drop_first() + replace_all(y, from, seq![])) =~= x + replace_all(y, from, seq![]));
    } else {
        assert(x + y =~= y);
        assert(x + replace_all(y, from, seq![]) =~= replace_all(y, from, seq![]));
    }
}

/// Removing the opening sequence of style `d` from a text opened with style `c`
/// takes the opening away exactly when `d` is `c`.
proof fn lemma_remove_open(c: Seq<char>, d: Seq<char>, text: Seq<char>)
    requires
        is_digit_code(c),
        is_digit_code(d),
        no_escape(text),
    ensures
        replace_all(style_open(c) + text, style_open(d), seq![]) == if c == d { text } else { style_open(c) + text },
{
    reveal_strlit("\x1b[");
    reveal_strlit("m");
    let s = style_open(c) + text;
    let from = style_open(d);
    assert(from[0] == '\x1b');
    assert(s[0] == '\x1b');
    if c == d {
        assert(s.subrange(0, from.len() as int) =~= from);
        assert(s.subrange(from.len() as int, s.len() as int) =~= text);
        lemma_replace_absent(text, from, seq![]);
        assert(seq![] + text =~= text);
    } else {
        assert(!is_prefix(from, s)) by {
            if is_prefix(from, s) {
                if c.len() < d.len() {
                    assert(s[2 + c.len() as int] == 'm');
                    assert(from[2 + c.len() as int] == d[c.len() as int]);
                    assert(s.subrange(0, from.len() as int)[2 + c.len() as int] == s[2 + c.len() as int]);
                } else if d.len() < c.len() {
                    assert(from[2 + d.len() as int] == 'm');
                    assert(s[2 + d.len() as int] == c[d.len() as int]);
                    assert(s.subrange(0, from.len() as int)[2 + d.len() as int] == s[2 + d.len() as int]);
                } else {
                    assert forall|i: int| 0 <= i < c.len() implies c[i] == d[i] by {
                        assert(s[2 + i] == c[i]);
                        assert(from[2 + i] == d[i]);
                        assert(s.subrange(0, from.len() as int)[2 + i] == s[2 + i]);
                    }
                    assert(c =~= d);
                }
            }
        }
        let x = s.drop_first();
        assert(no_escape(x)) by {
            assert forall|i: int| 0 <= i < x.len() implies x[i] != '\x1b' by {
                assert(x[i] == s[i + 1]);
                if i + 1 < 2 + c.len() + 1 {
                    if i + 1 >= 2 && i + 1 < 2 + c.len() {
                        assert(s[i + 1] == c[i - 1]);
                    }
                } else {
                    assert(s[i + 1] == text[i + 1 - 3 - c.len()]);
                }
            }
        }
        lemma_replace_skips_plain(x, seq![], from);
        assert(x + seq![] =~= x);
        assert(replace_all(Seq::<char>::empty(), from, seq![]) == Seq::<char>::empty());
        assert(seq![s[0]] + x =~= s);
    }
}

/// Removing the reset from a styled text leaves the opening and the text.
proof fn lemma_remove_reset(c: Seq<char>, text: Seq<char>)
    requires
        is_digit_code(c),
        c[0] != '0',
        no_escape(text),
    ensures
        replace_all(style_open(c) + text + "\x1b[0m"@, "\x1b[0m"@, seq![]) == style_open(c) + text,
{
    reveal_strlit("\x1b[");
    reveal_strlit("m");
    reveal_strlit("\x1b[0m");
    let r = "\x1b[0m"@;
    let s = style_open(c) + text + r;
    assert(!is_prefix(r, s)) by {
        if is_prefix(r, s) {
            assert(s.subrange(0, r.len() as int)[2] == s[2]);
            assert(s[2] == c[0]);
        }
    }
    let x = (style_open(c) + text).drop_first();
    assert(s.drop_first() =~= x + r);
    assert(no_escape(x)) by {
        assert forall|i: int| 0 <= i < x.len() implies x[i] != '\x1b' by {
            let o = style_open(c) + text;
            assert(x[i] == o[i + 1]);
            if i + 1 < 2 + c.len() + 1 {
                if i + 1 >= 2 && i + 1 < 2 + c.len() {
                    assert(o[i + 1] == c[i - 1]);
                }
            } else {
                assert(o[i + 1] == text[i + 1 - 3 - c.len()]);
            }
        }
    }
    lemma_replace_skips_plain(x, r, r);
    assert(r.subrange(0, r.len() as int) =~= r);
    assert(r.subrange(r.len() as int, r.len() as int) =~= Seq::<char>::empty());
    assert(r.len() == 4);
    assert(is_prefix(r, r));
    assert(replace_all(r.subrange(r.len() as int, r.len() as int), r, seq![]) == Seq::<char>::empty());
    assert(replace_all(r, r, seq![]) =~= Seq::<char>::empty());
    assert(seq![s[0]] + (x + Seq::<char>::empty()) =~= style_open(c) + text);
}

/// One removal step of `strip_ansi` on a text opened with style `c` or already bare.
proof fn lemma_strip_step(s: Seq<char>, c: Seq<char>, text: Seq<char>, d: Seq<char>)
    requires
        s == style_open(c) + text || s == text,
        is_digit_code(c),
        is_digit_code(d),
        no_escape(text),
    ensures
        replace_all(s, style_open(d), seq![]) == if s == style_open(c) + text && c == d { text } else { s },
{
    reveal_strlit("\x1b[");
    if s == style_open(c) + text {
        lemma_remove_open(c, d, text);
    } else {
        assert(style_open(d)[0] == '\x1b');
        lemma_replace_absent(text, style_open(d), seq![]);
    }
}

/// Removing the ANSI sequences undoes the styling the output writes: colours, bold and
/// dim, on text without an escape character.
pub proof fn law_strip_undoes_style(text: Seq<char>, code: Seq<char>)
    requires
        no_escape(text),
        code == "1"@ || code == "2"@ || exists|c: Color| code == color_code(c),
    ensures
        strip_ansi_spec(style_spec(text, code, true)) == text,
{
    reveal_strlit("\x1b[0m");
    reveal_strlit("\x1b[31m");
    reveal_strlit("\x1b[32m");
    reveal_strlit("\x1b[33m");
    reveal_strlit("\x1b[34m");
    reveal_strlit("\x1b[35m");
    reveal_strlit("\x1b[36m");
    reveal_strlit("\x1b[37m");
    reveal_strlit("\x1b[1m");
    reveal_strlit("\x1b[2m");
    reveal_strlit("\x1b[");
    reveal_strlit("m");
    reveal_strlit("1");
    reveal_strlit("2");
    reveal_strlit("31");
    reveal_strlit("32");
    reveal_strlit("33");
    reveal_strlit("34");
    reveal_strlit("35");
    reveal_strlit("36");
    reveal_strlit("37");
    let codes = seq!["31"@, "32"@, "33"@, "34"@, "35"@, "36"@, "37"@, "1"@, "2"@];
    assert forall|k: int| 0 <= k < 9 implies is_digit_code(#[trigger] codes[k]) && style_open(codes[k]) == (seq![
        "\x1b[31m"@, "\x1b[32m"@, "\x1b[33m"@, "\x1b[34m"@, "\x1b[35m"@, "\x1b[36m"@, "\x1b[37m"@, "\x1b[1m"@, "\x1b[2m"@,
    ])[k] by {
        assert(style_open("31"@) =~= "\x1b[31m"@);
        assert(style_open("32"@) =~= "\x1b[32m"@);
        assert(style_open("33"@) =~= "\x1b[33m"@);
        assert(style_open("34"@) =~= "\x1b[34m"@);
        assert(style_open("35"@) =~= "\x1b[35m"@);
        assert(style_open("36"@) =~= "\x1b[36m"@);
        assert(style_open("37"@) =~= "\x1b[37m"@);
        assert(style_open("1"@) =~= "\x1b[1m"@);
        assert(style_open("2"@) =~= "\x1b[2m"@);
    }
    let k0 = choose|k: int| 0 <= k < 9 && codes[k] == code;
    assert(exists|k: int| 0 <= k < 9 && codes[k] == code) by {
        if code == "1"@ {
            assert(codes[7] == code);
        } else if code == "2"@ {
            assert(codes[8] == code);
        } else {
            let c = choose|c: Color| code == color_code(c);
            match c {
                Color::Red => assert(codes[0] == code),
                Color::Green => assert(codes[1] == code),
                Color::Yellow => assert(codes[2] == code),
                Color::Blue => assert(codes[3] == code),
                Color::Magenta => assert(codes[4] == code),
                Color::Cyan => assert(codes[5] == code),
                Color::White => assert(codes[6] == code),
            }
        }
    }
    assert(is_digit_code(code));
    assert(code[0] != '0');
    let o = style_open(code) + text;
    assert(style_spec(text, code, true) =~= o + "\x1b[0m"@);
    lemma_remove_reset(code, text);
    let t0 = replace_all(style_spec(text, code, true), "\x1b[0m"@, seq![]);
    assert(t0 == o);
    lemma_strip_step(t0, code, text, codes[0]);
    let t1 = replace_all(t0, "\x1b[31m"@, seq![]);
    lemma_strip_step(t1, code, text, codes[1]);
    let t2 = replace_all(t1, "\x1b[32m"@, seq![]);
    lemma_strip_step(t2, code, text, codes[2]);
    let t3 = replace_all(t2, "\x1b[33m"@, seq![]);
    lemma_strip_step(t3, code, text, codes[3]);
    let t4 = replace_all(t3, "\x1b[34m"@, seq![]);
    lemma_strip_step(t4, code, text, codes[4]);
    let t5 = replace_all(t4, "\x1b[35m"@, seq![]);
    lemma_strip_step(t5, code, text, codes[5]);
    let t6 = replace_all(t5, "\x1b[36m"@, seq![]);
    lemma_strip_step(t6, code, text, codes[6]);
    let t7 = replace_all(t6, "\x1b[37m"@, seq![]);
    lemma_strip_step(t7, code, text, codes[7]);
    let t8 = replace_all(t7, "\x1b[1m"@, seq![]);
    lemma_strip_step(t8, code, text, codes[8]);
}

} // verus!
