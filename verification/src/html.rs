//! HTML helpers: escaping and console log fragments.

use vstd::prelude::*;
use vstd::string::StringExecFns;

use crate::strutil::push_char;

verus! {

/// The escaped form of one character: the five HTML-special characters
/// become entities, every other character stands for itself.
pub open spec fn spec_escape_char(c: char) -> Seq<char> {
    if c == '&' {
        "&amp;"@
    } else if c == '<' {
        "&lt;"@
    } else if c == '>' {
        "&gt;"@
    } else if c == '"' {
        "&quot;"@
    } else if c == '\'' {
        "&#39;"@
    } else {
        seq![c]
    }
}

/// The escaped form of a text: each character escaped in place.
pub open spec fn spec_html_escape(s: Seq<char>) -> Seq<char>
    decreases s.len(),
{
    if s.len() == 0 {
        Seq::empty()
    } else {
        spec_html_escape(s.drop_last()) + spec_escape_char(s.last())
    }
}

/// Escapes the HTML-special characters of a text.
pub fn html_escape(s: &str) -> (r: String)
    ensures
        r@ == spec_html_escape(s@),
{
    let v = crate::strutil::chars_vec(s);
    let mut r = String::new();
    let mut i: usize = 0;
    proof {
        assert(v@.take(0) =~= Seq::<char>::empty());
    }
    while i < v.len()
        invariant
            0 <= i <= v@.len(),
            r@ == spec_html_escape(v@.take(i as int)),
        decreases v@.len() - i,
    {
        proof {
            assert(v@.take(i as int + 1).drop_last() =~= v@.take(i as int));
            assert(v@.take(i as int + 1).last() == v@[i as int]);
        }
        let c = v[i];
        if c == '&' {
            r.append("&amp;");
        } else if c == '<' {
            r.append("&lt;");
        } else if c == '>' {
            r.append("&gt;");
        } else if c == '"' {
            r.append("&quot;");
        } else if c == '\'' {
            r.append("&#39;");
        } else {
            push_char(&mut r, c);
        }
        i = i + 1;
    }
    proof {
        assert(v@.take(v@.len() as int) =~= v@);
    }
    r
}

/// The preformatted block wrapped around nonempty command output.
pub open spec fn spec_output_html(output: Seq<char>) -> Seq<char> {
    if output.len() == 0 {
        Seq::empty()
    } else {
        "<pre class=\"text-gray-400 ml-4 text-xs whitespace-pre-wrap\">"@ + spec_html_escape(
            output,
        ) + "</pre>"@
    }
}

/// One console log line: a timestamp, a coloured status word, the escaped
/// message, and the output block.
pub open spec fn spec_console_line(
    ts: Seq<char>,
    status: Seq<char>,
    color: Seq<char>,
    message: Seq<char>,
    output: Seq<char>,
) -> Seq<char> {
    "<div class=\"border-b border-gray-700 py-2\">\n            <span class=\"text-gray-500\">["@
        + ts + "]</span>\n            <span class=\""@ + color + "\">"@ + status + "</span> "@
        + spec_html_escape(message) + "\n            "@ + spec_output_html(output)
        + "\n        </div>"@
}

/// Formats one console line against a given timestamp.
pub fn console_line_at(ts: &str, status: &str, color: &str, message: &str, output: &str) -> (r:
    String)
    ensures
        r@ == spec_console_line(ts@, status@, color@, message@, output@),
{
    let mut r = String::from_str(
        "<div class=\"border-b border-gray-700 py-2\">\n            <span class=\"text-gray-500\">[",
    );
    r.append(ts);
    r.append("]</span>\n            <span class=\"");
    r.append(color);
    r.append("\">");
    r.append(status);
    r.append("</span> ");
    let escaped = html_escape(message);
    r.append(escaped.as_str());
    r.append("\n            ");
    if !output.is_empty() {
        r.append("<pre class=\"text-gray-400 ml-4 text-xs whitespace-pre-wrap\">");
        let out_escaped = html_escape(output);
        r.append(out_escaped.as_str());
        r.append("</pre>");
    }
    r.append("\n        </div>");
    proof {
        assert(r@ =~= spec_console_line(ts@, status@, color@, message@, output@));
    }
    r
}

/// Relies on chrono's local clock, formatted `%H:%M:%S`: the wall-clock
/// time of day; nothing is assumed of its value.
#[verifier::external_body]
fn timestamp() -> (r: String)
{
    chrono::Local::now().format("%H:%M:%S").to_string()
}

/// Formats one console line, stamped with the time of the call: the text
/// equals [`spec_console_line`] for whatever timestamp the clock gave.
pub fn console_line(status: &str, color: &str, message: &str, output: &str) -> (r: String)
    ensures
        exists|ts: Seq<char>| r@ == spec_console_line(ts, status@, color@, message@, output@),
{
    let ts = timestamp();
    let r = console_line_at(ts.as_str(), status, color, message, output);
    proof {
        assert(r@ == spec_console_line(ts@, status@, color@, message@, output@));
    }
    r
}

} // verus!
