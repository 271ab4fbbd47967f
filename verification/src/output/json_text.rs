//! JSON text of an envelope.
use crate::error::CliCoreError;
use crate::error;
use crate::output::envelope::Envelope;
use crate::text;
use vstd::prelude::*;
use vstd::string::*;

verus! {

/// How a character is written so that it is safe inside HTML.
pub open spec fn escaped_char(c: char) -> Seq<char> {
    if c == '<' {
        "\\u003c"@
    } else if c == '>' {
        "\\u003e"@
    } else if c == '&' {
        "\\u0026"@
    } else if c == '\u{2028}' {
        "\\u2028"@
    } else if c == '\u{2029}' {
        "\\u2029"@
    } else {
        seq![c]
    }
}

/// A text with each of its characters written so that it is safe inside HTML.
pub open spec fn escaped(s: Seq<char>) -> Seq<char>
    decreases s.len(),
{
    if s.len() == 0 {
        Seq::empty()
    } else {
        escaped(s.drop_last()) + escaped_char(s.last())
    }
}

/// Writes the characters that HTML or JavaScript treat specially as JSON
/// escapes.
pub fn escape_html_sensitive_json_chars(json: &str) -> (r: String)
    ensures
        r@ == escaped(json@),
{
    let chars = text::chars_of(json);
    let mut out = String::new();
    let mut i: usize = 0;
    proof {
        assert(json@.take(0) =~= Seq::empty());
    }
    while i < chars.len()
        invariant
            chars@ == json@,
            i <= chars@.len(),
            out@ == escaped(json@.take(i as int)),
        decreases chars@.len() - i,
    {
        let c = chars[i];
        proof {
            assert(json@.take(i + 1).drop_last() =~= json@.take(i as int));
        }
        if c == '<' {
            out.append("\\u003c");
        } else if c == '>' {
            out.append("\\u003e");
        } else if c == '&' {
            out.append("\\u0026");
        } else if c == '\u{2028}' {
            out.append("\\u2028");
        } else if c == '\u{2029}' {
            out.append("\\u2029");
        } else {
            let ghost before = out@;
            out.push(c);
            assert(out@ =~= before + seq![c]);
        }
        i = i + 1;
    }
    proof {
        assert(json@.take(i as int) =~= json@);
    }
    out
}

/// The character is written as an escape.
pub open spec fn is_sensitive(c: char) -> bool {
    c == '<' || c == '>' || c == '&' || c == '\u{2028}' || c == '\u{2029}'
}

/// Escaped text holds none of the characters that HTML or JavaScript treat
/// specially.
pub proof fn law_escaped_text_is_safe(s: Seq<char>, i: int)
    requires
        0 <= i < escaped(s).len(),
    ensures
        !is_sensitive(escaped(s)[i]),
    decreases s.len(),
{
    reveal_strlit("\\u003c");
    reveal_strlit("\\u003e");
    reveal_strlit("\\u0026");
    reveal_strlit("\\u2028");
    reveal_strlit("\\u2029");
    if s.len() > 0 {
        let n = escaped(s.drop_last()).len();
        if i < n {
            law_escaped_text_is_safe(s.drop_last(), i);
        } else {
            assert(escaped(s)[i] == escaped_char(s.last())[i - n]);
        }
    }
}

/// Text without such characters stays as it is.
pub proof fn law_plain_text_is_not_escaped(s: Seq<char>)
    requires
        forall|i: int| 0 <= i < s.len() ==> !is_sensitive(#[trigger] s[i]),
    ensures
        escaped(s) == s,
    decreases s.len(),
{
    if s.len() > 0 {
        assert(forall|i: int| 0 <= i < s.drop_last().len() ==> s.drop_last()[i] == s[i]);
        law_plain_text_is_not_escaped(s.drop_last());
        assert(!is_sensitive(s[s.len() - 1]));
        assert(escaped(s) =~= s);
    }
}

/// The character that one of the escapes stands for.
pub open spec fn named_escape(e: Seq<char>) -> Option<char> {
    if e == "\\u003c"@ {
        Some('<')
    } else if e == "\\u003e"@ {
        Some('>')
    } else if e == "\\u0026"@ {
        Some('&')
    } else if e == "\\u2028"@ {
        Some('\u{2028}')
    } else if e == "\\u2029"@ {
        Some('\u{2029}')
    } else {
        None
    }
}

/// The text starts with one of the escapes.
pub open spec fn starts_with_escape(s: Seq<char>) -> bool {
    s.len() >= 6 && named_escape(s.take(6)) is Some
}

/// What JSON text means, as far as these escapes go: each stands for its
/// character, and every other escape is kept.
pub open spec fn meaning(s: Seq<char>) -> Seq<char>
    decreases s.len(),
{
    if s.len() == 0 {
        Seq::empty()
    } else if s[0] == '\\' && starts_with_escape(s) {
        seq![named_escape(s.take(6))->0] + meaning(s.skip(6))
    } else if s[0] == '\\' && s.len() >= 2 {
        s.take(2) + meaning(s.skip(2))
    } else {
        seq![s[0]] + meaning(s.skip(1))
    }
}

/// No backslash escapes one of the sensitive characters, as in all JSON.
pub open spec fn is_well_escaped(s: Seq<char>) -> bool
    decreases s.len(),
{
    if s.len() == 0 {
        true
    } else if s[0] == '\\' && s.len() >= 2 {
        !is_sensitive(s[1]) && is_well_escaped(s.skip(2))
    } else {
        is_well_escaped(s.skip(1))
    }
}

proof fn lemma_escaped_first(s: Seq<char>)
    requires
        s.len() > 0,
    ensures
        escaped(s) == escaped_char(s[0]) + escaped(s.skip(1)),
    decreases s.len(),
{
    if s.len() == 1 {
        assert(s.drop_last() =~= Seq::empty());
        assert(s.skip(1) =~= Seq::empty());
        assert(escaped(s.drop_last()) =~= Seq::empty());
        assert(escaped(s.skip(1)) =~= Seq::empty());
        assert(escaped(s) =~= escaped_char(s[0]) + escaped(s.skip(1)));
    } else {
        lemma_escaped_first(s.drop_last());
        assert(s.drop_last().skip(1) =~= s.skip(1).drop_last());
        assert(escaped(s) =~= escaped_char(s[0]) + escaped(s.skip(1)));
    }
}

/// Escaped text that starts without a backslash starts like the text.
proof fn lemma_plain_start(s: Seq<char>, k: int)
    requires
        0 <= k <= escaped(s).len(),
        forall|i: int| 0 <= i < k ==> #[trigger] escaped(s)[i] != '\\',
    ensures
        k <= s.len(),
        s.take(k) == escaped(s).take(k),
        forall|i: int| 0 <= i < k ==> !is_sensitive(#[trigger] s[i]),
    decreases k,
{
    if k == 0 {
        assert(s.take(0) =~= escaped(s).take(0));
    } else {
        reveal_strlit("\\u003c");
        reveal_strlit("\\u003e");
        reveal_strlit("\\u0026");
        reveal_strlit("\\u2028");
        reveal_strlit("\\u2029");
        lemma_escaped_first(s);
        let rest = s.skip(1);
        assert(escaped(s)[0] == escaped_char(s[0])[0]);
        assert(!is_sensitive(s[0]));
        assert(forall|i: int| 0 <= i < k - 1 ==> #[trigger] escaped(rest)[i] == escaped(s)[i + 1]);
        lemma_plain_start(rest, k - 1);
        assert forall|i: int| 0 <= i < k implies !is_sensitive(#[trigger] s[i]) by {
            if i > 0 {
                assert(rest[i - 1] == s[i]);
            }
        }
        assert forall|i: int| 0 <= i < k implies s[i] == escaped(s)[i] by {
            if i > 0 {
                assert(rest.take(k - 1)[i - 1] == escaped(rest).take(k - 1)[i - 1]);
            }
        }
        assert(s.take(k) =~= escaped(s).take(k));
    }
}

/// An escape holds a backslash first and no other, and nothing sensitive.
proof fn lemma_escape_form(e: Seq<char>)
    requires
        named_escape(e) is Some,
    ensures
        e.len() == 6,
        e[0] == '\\',
        e[1] == 'u',
        forall|i: int| 1 <= i < 6 ==> #[trigger] e[i] != '\\',
        forall|i: int| 0 <= i < 6 ==> !is_sensitive(#[trigger] e[i]),
{
    reveal_strlit("\\u003c");
    reveal_strlit("\\u003e");
    reveal_strlit("\\u0026");
    reveal_strlit("\\u2028");
    reveal_strlit("\\u2029");
}

proof fn lemma_sensitive_is_named(c: char)
    requires
        is_sensitive(c),
    ensures
        named_escape(escaped_char(c)) == Some(c),
{
    reveal_strlit("\\u003c");
    reveal_strlit("\\u003e");
    reveal_strlit("\\u0026");
    reveal_strlit("\\u2028");
    reveal_strlit("\\u2029");
    assert("\\u003c"@[5] != "\\u003e"@[5]);
    assert("\\u003c"@[5] != "\\u0026"@[5]);
    assert("\\u003c"@[5] != "\\u2028"@[5]);
    assert("\\u003c"@[5] != "\\u2029"@[5]);
    assert("\\u003e"@[5] != "\\u0026"@[5]);
    assert("\\u003e"@[5] != "\\u2028"@[5]);
    assert("\\u003e"@[5] != "\\u2029"@[5]);
    assert("\\u0026"@[5] != "\\u2028"@[5]);
    assert("\\u0026"@[5] != "\\u2029"@[5]);
    assert("\\u2028"@[5] != "\\u2029"@[5]);
}

/// Plain characters at the start of escaped text stay, one by one.
proof fn lemma_escaped_prefix(s: Seq<char>, k: int)
    requires
        0 <= k <= s.len(),
        forall|i: int| 0 <= i < k ==> !is_sensitive(#[trigger] s[i]),
    ensures
        escaped(s) == s.take(k) + escaped(s.skip(k)),
    decreases k,
{
    if k == 0 {
        assert(s.skip(0) =~= s);
        assert(escaped(s) =~= s.take(0) + escaped(s.skip(0)));
    } else {
        lemma_escaped_first(s);
        let rest = s.skip(1);
        assert(!is_sensitive(s[0]));
        assert(forall|i: int| 0 <= i < k - 1 ==> #[trigger] rest[i] == s[i + 1]);
        lemma_escaped_prefix(rest, k - 1);
        assert(rest.skip(k - 1) =~= s.skip(k));
        assert(escaped(s) =~= s.take(k) + escaped(s.skip(k)));
    }
}

/// Plain characters can be skipped.
proof fn lemma_well_escaped_skips(s: Seq<char>, k: int)
    requires
        0 <= k <= s.len(),
        forall|i: int| 0 <= i < k ==> #[trigger] s[i] != '\\',
        is_well_escaped(s),
    ensures
        is_well_escaped(s.skip(k)),
    decreases k,
{
    if k == 0 {
        assert(s.skip(0) =~= s);
    } else {
        let rest = s.skip(1);
        assert(s[0] != '\\');
        assert(forall|i: int| 0 <= i < k - 1 ==> #[trigger] rest[i] == s[i + 1]);
        lemma_well_escaped_skips(rest, k - 1);
        assert(rest.skip(k - 1) =~= s.skip(k));
    }
}

/// Escaping does not change what JSON text means.
pub proof fn law_escaping_keeps_the_meaning(s: Seq<char>)
    requires
        is_well_escaped(s),
    ensures
        meaning(escaped(s)) == meaning(s),
    decreases s.len(),
{
    let e = escaped(s);
    if s.len() == 0 {
    } else if s[0] == '\\' && starts_with_escape(s) {
        let six = s.take(6);
        lemma_escape_form(six);
        assert forall|i: int| 0 <= i < 6 implies !is_sensitive(#[trigger] s[i]) by {
            assert(six[i] == s[i]);
        }
        lemma_escaped_prefix(s, 6);
        let rest = s.skip(6);
        assert(e.take(6) =~= six);
        assert(e.skip(6) =~= escaped(rest));
        assert(is_well_escaped(s.skip(2)));
        assert forall|i: int| 0 <= i < 4 implies #[trigger] s.skip(2)[i] != '\\' by {
            assert(six[i + 2] == s[i + 2]);
        }
        lemma_well_escaped_skips(s.skip(2), 4);
        assert(s.skip(2).skip(4) =~= rest);
        law_escaping_keeps_the_meaning(rest);
    } else if s[0] == '\\' && s.len() >= 2 {
        assert forall|i: int| 0 <= i < 2 implies !is_sensitive(#[trigger] s[i]) by {}
        lemma_escaped_prefix(s, 2);
        let rest = s.skip(2);
        assert(e.take(2) =~= s.take(2));
        assert(e.skip(2) =~= escaped(rest));
        if starts_with_escape(e) {
            let six = e.take(6);
            lemma_escape_form(six);
            assert forall|i: int| 0 <= i < 4 implies #[trigger] escaped(rest)[i] != '\\' by {
                assert(six[i + 2] == e[i + 2]);
                assert(e.skip(2)[i] == e[i + 2]);
            }
            assert(escaped(rest).len() == e.len() - 2);
            lemma_plain_start(rest, 4);
            assert forall|i: int| 0 <= i < 6 implies s[i] == e[i] by {
                if i >= 2 {
                    assert(rest.take(4)[i - 2] == escaped(rest).take(4)[i - 2]);
                    assert(rest[i - 2] == s[i]);
                } else {
                    assert(e.take(2)[i] == s.take(2)[i]);
                }
            }
            assert(s.take(6) =~= six);
            assert(false);
        }
        assert(e[0] == s[0]) by {
            assert(e.take(2)[0] == s.take(2)[0]);
        }
        law_escaping_keeps_the_meaning(rest);
    } else {
        lemma_escaped_first(s);
        let rest = s.skip(1);
        law_escaping_keeps_the_meaning(rest);
        if is_sensitive(s[0]) {
            lemma_sensitive_is_named(s[0]);
            lemma_escape_form(escaped_char(s[0]));
            assert(e.take(6) =~= escaped_char(s[0]));
            assert(e.skip(6) =~= escaped(rest));
            assert(e[0] == '\\');
        } else {
            assert(e[0] == s[0]);
            assert(e.skip(1) =~= escaped(rest));
            if s[0] == '\\' {
                assert(s.len() == 1);
                assert(rest =~= Seq::empty());
                assert(escaped(rest) =~= Seq::empty());
                assert(e.len() == 1);
            }
        }
    }
}

/// `r` is the JSON of an envelope, given why its data could not be turned into
/// JSON and what its serialisation came to.
pub open spec fn is_rendered(
    r: Result<String, CliCoreError>,
    failure: Option<Seq<char>>,
    serialized: Result<String, String>,
) -> bool {
    match failure {
        Some(m) => r matches Err(e) && error::is_message(e, m),
        None => match serialized {
            Err(m) => r matches Err(CliCoreError::Json { message, source: None }) && message@ == m@,
            Ok(t) => r matches Ok(s) && s@ == escaped(t@).push('\n'),
        },
    }
}

/// Renders an envelope as pretty JSON, given what its serialisation came to.
///
/// HTML-sensitive characters are escaped so the output is safe to embed in
/// browser-oriented logs or diagnostics without changing the JSON data model.
pub fn render_json(envelope: &Envelope, serialized: Result<String, String>) -> (r: Result<
    String,
    CliCoreError,
>)
    ensures
        is_rendered(r, error::opt_text(envelope.serialization_error), serialized),
{
    match envelope.serialization_result() {
        Ok(()) => {},
        Err(e) => {
            return Err(e);
        },
    }
    match serialized {
        Ok(t) => {
            let mut s = escape_html_sensitive_json_chars(t.as_str());
            s.push('\n');
            Ok(s)
        },
        Err(m) => Err(CliCoreError::Json { message: m, source: None }),
    }
}

/// What is rendered means what was serialised, and ends with a line feed. A
/// failure to serialise is the error.
pub proof fn law_rendered_text_means_the_same(
    r: Result<String, CliCoreError>,
    failure: Option<Seq<char>>,
    serialized: Result<String, String>,
)
    requires
        is_rendered(r, failure, serialized),
    ensures
        r is Ok <==> failure is None && serialized is Ok,
        r matches Ok(s) ==> s@.len() > 0 && s@.last() == '\n' && (is_well_escaped(
            serialized->Ok_0@,
        ) ==> meaning(s@.drop_last()) == meaning(serialized->Ok_0@)),
{
    if r is Ok {
        let t = serialized->Ok_0@;
        if is_well_escaped(t) {
            law_escaping_keeps_the_meaning(t);
        }
        assert(escaped(t).push('\n').drop_last() =~= escaped(t));
    }
}

} // verus!
