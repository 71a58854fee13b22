//! The files that hits are written to: JSON Lines, and a single JSON value.

use vstd::prelude::*;
use vstd::string::StringExecFns;
use vstd::utf8::encode_utf8;

use crate::json::json_model;
use crate::json::json_pretty;
use crate::json::json_shown;
use crate::json::json_text;
use crate::json::show_json;
use crate::json::show_json_pretty;

verus! {

/// The line of a JSON value: its text, which has no line break in it, and a line
/// break. A flat object, one without nesting, fractions and keys that start with
/// a dollar sign, can be read back from the text.
pub fn jsonl_line(v: &serde_json::Value) -> (line: String)
    ensures
        line@ == json_shown(json_model(*v)).push('\n'),
        !json_shown(json_model(*v)).contains('\n'),
        json_model(*v).flat() ==> json_text(encode_utf8(json_shown(json_model(*v)))) == Some(
            json_model(*v),
        ),
{
    let mut line = show_json(v);
    proof {
        reveal_strlit("\n");
    }
    line.append("\n");
    assert(line@ =~= json_shown(json_model(*v)).push('\n'));
    line
}

/// The bytes of a file that holds a JSON value, with line breaks and indentation.
pub fn pretty_file(v: &serde_json::Value) -> (bytes: Vec<u8>)
    ensures
        bytes@ == json_pretty(json_model(*v)),
{
    show_json_pretty(v).unwrap()
}

/// A file with a line for each of `texts`.
pub open spec fn file_of(texts: Seq<Seq<char>>) -> Seq<char>
    decreases texts.len(),
{
    if texts.len() == 0 {
        Seq::empty()
    } else {
        file_of(texts.drop_last()) + texts.last().push('\n')
    }
}

/// The lines of a file, without their line breaks, and what stands behind the
/// last line break.
pub open spec fn lines_of(file: Seq<char>) -> (Seq<Seq<char>>, Seq<char>)
    decreases file.len(),
{
    if file.len() == 0 {
        (Seq::empty(), Seq::empty())
    } else {
        let (lines, rest) = lines_of(file.drop_last());
        if file.last() == '\n' {
            (lines.push(rest), Seq::empty())
        } else {
            (lines, rest.push(file.last()))
        }
    }
}

proof fn lemma_lines_of_more(file: Seq<char>, text: Seq<char>)
    requires
        !text.contains('\n'),
    ensures
        lines_of(file + text) == (lines_of(file).0, lines_of(file).1 + text),
    decreases text.len(),
{
    if text.len() == 0 {
        assert(file + text =~= file);
        assert(lines_of(file).1 + text =~= lines_of(file).1);
    } else {
        let shorter = text.drop_last();
        assert(text.contains(text.last()));
        assert forall|i: int| 0 <= i < shorter.len() implies shorter[i] != '\n' by {
            assert(text.contains(text[i]));
        }
        lemma_lines_of_more(file, shorter);
        assert((file + text).drop_last() =~= file + shorter);
        assert((lines_of(file).1 + shorter).push(text.last()) =~= lines_of(file).1 + text);
    }
}

/// A file to which texts without a line break were added line by line has
/// exactly these lines, in the order in which they were added.
pub proof fn law_lines_are_the_texts(texts: Seq<Seq<char>>)
    requires
        forall|i: int| 0 <= i < texts.len() ==> !(#[trigger] texts[i]).contains('\n'),
    ensures
        lines_of(file_of(texts)) == (texts, Seq::<char>::empty()),
    decreases texts.len(),
{
    if texts.len() == 0 {
        assert(lines_of(file_of(texts)).0 =~= texts);
    } else {
        let earlier = texts.drop_last();
        let text = texts.last();
        law_lines_are_the_texts(earlier);
        lemma_lines_of_more(file_of(earlier), text);
        assert(Seq::<char>::empty() + text =~= text);
        assert(file_of(texts).drop_last() =~= file_of(earlier) + text);
        assert(earlier.push(text) =~= texts);
    }
}

} // verus!
