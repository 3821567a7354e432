//! Remote text files: bytes with or without a byte order mark and with one of two line endings,
//! edited as text whose lines end in a line feed.
use crate::text::chars_of;
use vstd::prelude::*;
use vstd::slice::slice_subrange;
use vstd::string::*;
use vstd::utf8::*;

verus! {

/// How the lines of a remote file end.
#[derive(Clone, Copy, Debug, PartialEq, Eq, Structural)]
pub enum RemoteLineEnding {
    Lf,
    CrLf,
}

/// What a remote file keeps beside its text.
#[derive(Clone, Copy, Debug, PartialEq, Eq, Structural)]
pub struct RemoteTextFormat {
    pub utf8_bom: bool,
    pub line_ending: RemoteLineEnding,
}

/// The byte order mark of UTF-8.
pub open spec fn bom() -> Seq<u8> {
    seq![0xefu8, 0xbbu8, 0xbfu8]
}

/// The bytes start with a byte order mark.
pub open spec fn has_bom(contents: Seq<u8>) -> bool {
    contents.len() >= 3 && contents.take(3) == bom()
}

/// The bytes behind the byte order mark.
pub open spec fn text_bytes(contents: Seq<u8>) -> Seq<u8> {
    if has_bom(contents) {
        contents.skip(3)
    } else {
        contents
    }
}

/// The bytes are text: no zero byte, and UTF-8 behind the byte order mark.
pub open spec fn is_text(contents: Seq<u8>) -> bool {
    !contents.contains(0u8) && valid_utf8(text_bytes(contents))
}

/// A carriage return and a line feed stand at `i`.
pub open spec fn crlf_at(text: Seq<char>, i: int) -> bool {
    0 <= i < text.len() - 1 && text[i] == '\r' && text[i + 1] == '\n'
}

/// Some line ends in a carriage return and a line feed.
pub open spec fn has_crlf(text: Seq<char>) -> bool {
    exists|i: int| crlf_at(text, i)
}

/// Every line feed follows a carriage return.
pub open spec fn no_lone_lf(text: Seq<char>) -> bool {
    forall|i: int| 0 <= i < text.len() && #[trigger] text[i] == '\n' ==> crlf_at(text, i - 1)
}

/// The line endings are of one kind.
pub open spec fn uniform_lines(text: Seq<char>) -> bool {
    has_crlf(text) ==> no_lone_lf(text)
}

/// Each carriage return with a line feed behind it taken out.
pub open spec fn to_lf(text: Seq<char>) -> Seq<char>
    decreases text.len(),
{
    if text.len() == 0 {
        text
    } else if crlf_at(text, text.len() - 2) {
        to_lf(text.take(text.len() - 2)).push('\n')
    } else {
        to_lf(text.drop_last()).push(text.last())
    }
}

/// A carriage return put before each line feed.
pub open spec fn to_crlf(text: Seq<char>) -> Seq<char>
    decreases text.len(),
{
    if text.len() == 0 {
        text
    } else if text.last() == '\n' {
        to_crlf(text.drop_last()).push('\r').push('\n')
    } else {
        to_crlf(text.drop_last()).push(text.last())
    }
}

/// The format and the text that `contents` is read as.
pub open spec fn decoded(contents: Seq<u8>) -> (RemoteTextFormat, Seq<char>) {
    let text = decode_utf8(text_bytes(contents));
    if has_crlf(text) {
        (
            RemoteTextFormat { utf8_bom: has_bom(contents), line_ending: RemoteLineEnding::CrLf },
            to_lf(text),
        )
    } else {
        (
            RemoteTextFormat { utf8_bom: has_bom(contents), line_ending: RemoteLineEnding::Lf },
            text,
        )
    }
}

/// The bytes that `text` is written as.
pub open spec fn encoded(format: RemoteTextFormat, text: Seq<char>) -> Seq<u8> {
    let body = encode_utf8(
        match format.line_ending {
            RemoteLineEnding::Lf => text,
            RemoteLineEnding::CrLf => to_crlf(text),
        },
    );
    if format.utf8_bom {
        bom() + body
    } else {
        body
    }
}

/// `std::str::from_utf8`: the text of bytes that are valid UTF-8, and none for others.
#[verifier::external_body]
fn utf8_text<'a>(bytes: &'a [u8]) -> (r: Option<&'a str>)
    ensures
        match r {
            Some(text) => valid_utf8(bytes@) && text@ == decode_utf8(bytes@),
            None => !valid_utf8(bytes@),
        },
{
    std::str::from_utf8(bytes).ok()
}

/// The bytes hold a zero.
fn holds_zero(bytes: &[u8]) -> (r: bool)
    ensures
        r == bytes@.contains(0u8),
{
    let mut i: usize = 0;
    while i < bytes.len()
        invariant
            i <= bytes@.len(),
            forall|j: int| 0 <= j < i ==> bytes@[j] != 0,
        decreases bytes@.len() - i,
    {
        if bytes[i] == 0 {
            assert(bytes@[i as int] == 0);
            return true;
        }
        i = i + 1;
    }
    false
}

/// Takes out each carriage return with a line feed behind it; says whether there was one.
fn unify_lines(text: &str) -> (r: (bool, String))
    ensures
        r.0 == has_crlf(text@),
        r.1@ == to_lf(text@),
{
    let chars = chars_of(text);
    let mut out: String = String::new();
    let mut found: bool = false;
    let mut i: usize = 0;
    assert(text@.take(0) =~= Seq::<char>::empty());
    while i < chars.len()
        invariant
            i <= chars@.len(),
            chars@ == text@,
            out@ == to_lf(text@.take(i as int)),
            i < text@.len() ==> !crlf_at(text@, i - 1),
            found == exists|k: int| k < i && crlf_at(text@, k),
        decreases chars@.len() - i,
    {
        let ghost seen = text@.take(i as int);
        if chars[i] == '\r' && i + 1 < chars.len() && chars[i + 1] == '\n' {
            out.push('\n');
            found = true;
            let ghost next = text@.take(i + 2);
            assert(next.take(next.len() - 2) =~= seen);
            assert(crlf_at(text@, i as int));
            assert(crlf_at(next, i as int));
            i = i + 2;
        } else {
            out.push(chars[i]);
            let ghost next = text@.take(i + 1);
            assert(next.drop_last() =~= seen);
            assert(!crlf_at(next, i - 1)) by {
                if crlf_at(next, i - 1) {
                    assert(crlf_at(text@, i - 1));
                }
            }
            assert(!crlf_at(text@, i as int));
            assert(found == exists|k: int| k < i + 1 && crlf_at(text@, k)) by {
                if exists|k: int| k < i + 1 && crlf_at(text@, k) {
                    let k = choose|k: int| k < i + 1 && crlf_at(text@, k);
                    assert(k < i);
                }
            }
            i = i + 1;
        }
    }
    assert(text@.take(i as int) =~= text@);
    (found, out)
}

/// Puts a carriage return before each line feed.
fn expand_lines(text: &str) -> (r: String)
    ensures
        r@ == to_crlf(text@),
{
    let chars = chars_of(text);
    let mut out: String = String::new();
    let mut i: usize = 0;
    assert(text@.take(0) =~= Seq::<char>::empty());
    while i < chars.len()
        invariant
            i <= chars@.len(),
            chars@ == text@,
            out@ == to_crlf(text@.take(i as int)),
        decreases chars@.len() - i,
    {
        assert(text@.take(i + 1).drop_last() =~= text@.take(i as int));
        if chars[i] == '\n' {
            out.push('\r');
        }
        out.push(chars[i]);
        i = i + 1;
    }
    assert(text@.take(i as int) =~= text@);
    out
}

impl RemoteTextFormat {
    /// Reads a remote file as text; none for a file that is not text.
    pub fn decode(contents: &[u8]) -> (r: Option<(Self, String)>)
        ensures
            match r {
                Some((format, text)) => is_text(contents@) && (format, text@) == decoded(contents@),
                None => !is_text(contents@),
            },
    {
        if holds_zero(contents) {
            return None;
        }
        let utf8_bom: bool = contents.len() >= 3 && contents[0] == 0xef && contents[1] == 0xbb
            && contents[2] == 0xbf;
        proof {
            if utf8_bom {
                assert(contents@.take(3) =~= bom());
            } else if has_bom(contents@) {
                assert(contents@.take(3)[0] == 0xef && contents@.take(3)[1] == 0xbb
                    && contents@.take(3)[2] == 0xbf);
            }
        }
        let bytes = if utf8_bom {
            slice_subrange(contents, 3, contents.len())
        } else {
            contents
        };
        assert(bytes@ =~= text_bytes(contents@));
        match utf8_text(bytes) {
            None => None,
            Some(text) => {
                let (crlf, unified) = unify_lines(text);
                if crlf {
                    Some(
                        (
                            RemoteTextFormat { utf8_bom, line_ending: RemoteLineEnding::CrLf },
                            unified,
                        ),
                    )
                } else {
                    Some(
                        (
                            RemoteTextFormat { utf8_bom, line_ending: RemoteLineEnding::Lf },
                            text.to_owned(),
                        ),
                    )
                }
            },
        }
    }

    /// The bytes to write for `text`.
    pub fn encode(self, text: &str) -> (r: Vec<u8>)
        ensures
            r@ == encoded(self, text@),
    {
        let body: String = match self.line_ending {
            RemoteLineEnding::Lf => text.to_owned(),
            RemoteLineEnding::CrLf => expand_lines(text),
        };
        let mut contents: Vec<u8> = Vec::new();
        if self.utf8_bom {
            contents.push(0xef);
            contents.push(0xbb);
            contents.push(0xbf);
            assert(contents@ =~= bom());
        }
        let mut bytes: Vec<u8> = body.as_str().as_bytes_vec();
        contents.append(&mut bytes);
        contents
    }
}

/// Of a text whose every line feed follows a carriage return, expanding the line feeds undoes
/// taking out the carriage returns; of any other it makes a longer text.
proof fn expand_after_unify(text: Seq<char>)
    ensures
        to_crlf(to_lf(text)).len() >= text.len(),
        no_lone_lf(text) ==> to_crlf(to_lf(text)) == text,
        !no_lone_lf(text) ==> to_crlf(to_lf(text)).len() > text.len(),
    decreases text.len(),
{
    if text.len() == 0 {
    } else if crlf_at(text, text.len() - 2) {
        let head = text.take(text.len() - 2);
        expand_after_unify(head);
        assert(to_lf(text).drop_last() =~= to_lf(head));
        assert(text =~= head.push('\r').push('\n'));
        assert(no_lone_lf(text) <==> no_lone_lf(head)) by {
            if no_lone_lf(text) {
                assert forall|i: int| 0 <= i < head.len() && #[trigger] head[i] == '\n' implies
                    crlf_at(head, i - 1) by {
                    assert(text[i] == '\n');
                    assert(crlf_at(text, i - 1));
                }
            }
            if no_lone_lf(head) {
                assert forall|i: int| 0 <= i < text.len() && #[trigger] text[i] == '\n' implies
                    crlf_at(text, i - 1) by {
                    if i < head.len() {
                        assert(head[i] == '\n');
                        assert(crlf_at(head, i - 1));
                    }
                }
            }
        }
    } else {
        let head = text.drop_last();
        expand_after_unify(head);
        assert(to_lf(text).drop_last() =~= to_lf(head));
        assert(text =~= head.push(text.last()));
        if text.last() == '\n' {
            assert(!no_lone_lf(text)) by {
                assert(text[text.len() - 1] == '\n');
                assert(!crlf_at(text, text.len() - 2));
            }
        } else {
            assert(no_lone_lf(text) <==> no_lone_lf(head)) by {
                if no_lone_lf(text) {
                    assert forall|i: int| 0 <= i < head.len() && #[trigger] head[i] == '\n' implies
                        crlf_at(head, i - 1) by {
                        assert(text[i] == '\n');
                        assert(crlf_at(text, i - 1));
                    }
                }
                if no_lone_lf(head) {
                    assert forall|i: int| 0 <= i < text.len() && #[trigger] text[i] == '\n' implies
                        crlf_at(text, i - 1) by {
                        assert(head[i] == '\n');
                        assert(crlf_at(head, i - 1));
                    }
                }
            }
        }
    }
}

/// Writing what was read gives back the same bytes, exactly for the files whose line endings are
/// of one kind.
pub proof fn encode_after_decode(contents: Seq<u8>)
    requires
        is_text(contents),
    ensures
        encoded(decoded(contents).0, decoded(contents).1) == contents <==> uniform_lines(
            decode_utf8(text_bytes(contents)),
        ),
{
    let bytes = text_bytes(contents);
    let text = decode_utf8(bytes);
    decode_utf8_encode_utf8(bytes);
    assert(encode_utf8(text) == bytes);
    if has_bom(contents) {
        assert(contents =~= bom() + bytes);
    }
    if has_crlf(text) {
        expand_after_unify(text);
        let back = to_crlf(to_lf(text));
        if !no_lone_lf(text) {
            encode_utf8_decode_utf8(back);
            if encoded(decoded(contents).0, decoded(contents).1) == contents {
                let body = encode_utf8(back);
                if has_bom(contents) {
                    assert((bom() + body).skip(3) =~= body);
                    assert(contents.skip(3) =~= bytes);
                }
                assert(body == bytes);
                assert(back == text);
            }
        }
    }
}

/// The text that expanding line feeds makes unifies to the text it was made from, and it has a
/// carriage return with a line feed behind it wherever there was a line feed.
proof fn unify_after_expand(text: Seq<char>)
    ensures
        to_lf(to_crlf(text)) == text,
        has_crlf(to_crlf(text)) <==> text.contains('\n'),
    decreases text.len(),
{
    let wide = to_crlf(text);
    if text.len() > 0 {
        let head = text.drop_last();
        unify_after_expand(head);
        let w = to_crlf(head);
        assert(text =~= head.push(text.last()));
        if text.last() == '\n' {
            assert(wide =~= w.push('\r').push('\n'));
            assert(crlf_at(wide, wide.len() - 2));
            assert(wide.take(wide.len() - 2) =~= w);
            assert(text[text.len() - 1] == '\n');
        } else {
            assert(wide.drop_last() =~= w);
            assert(!crlf_at(wide, wide.len() - 2));
            if has_crlf(wide) {
                let i = choose|i: int| crlf_at(wide, i);
                assert(crlf_at(w, i));
                let k = head.index_of('\n');
                assert(text[k] == '\n');
            }
            if text.contains('\n') {
                let k = text.index_of('\n');
                assert(head[k] == '\n');
                let i = choose|i: int| crlf_at(w, i);
                assert(crlf_at(wide, i));
            }
        }
    } else {
        assert forall|i: int| !crlf_at(wide, i) by {}
    }
}

/// Reading what was written gives back the format and the text, for a text without the zero
/// character, whose first character is not taken for a byte order mark, and whose lines show the
/// line ending that it is written with.
pub proof fn decode_after_encode(format: RemoteTextFormat, text: Seq<char>)
    requires
        !encoded(format, text).contains(0u8),
        !format.utf8_bom ==> !has_bom(encoded(format, text)),
        format.line_ending == RemoteLineEnding::CrLf ==> text.contains('\n'),
        format.line_ending == RemoteLineEnding::Lf ==> !has_crlf(text),
    ensures
        is_text(encoded(format, text)),
        decoded(encoded(format, text)) == (format, text),
{
    let body_text = match format.line_ending {
        RemoteLineEnding::Lf => text,
        RemoteLineEnding::CrLf => to_crlf(text),
    };
    let body = encode_utf8(body_text);
    encode_utf8_valid_utf8(body_text);
    encode_utf8_decode_utf8(body_text);
    unify_after_expand(text);
    if format.utf8_bom {
        assert((bom() + body).take(3) =~= bom());
        assert((bom() + body).skip(3) =~= body);
    }
}

/// A file is written with a byte order mark exactly where it was read with one, and its lines end
/// as a line of it did: in a carriage return and a line feed as soon as one did.
pub proof fn format_is_that_of_the_file(contents: Seq<u8>)
    ensures
        decoded(contents).0.utf8_bom <==> contents.len() >= 3 && contents[0] == 0xef && contents[1]
            == 0xbb && contents[2] == 0xbf,
        decoded(contents).0.line_ending == RemoteLineEnding::CrLf <==> exists|i: int|
            0 <= i < decode_utf8(text_bytes(contents)).len() - 1 && #[trigger] decode_utf8(
                text_bytes(contents),
            )[i] == '\r' && decode_utf8(text_bytes(contents))[i + 1] == '\n',
{
    if contents.len() >= 3 {
        if contents[0] == 0xef && contents[1] == 0xbb && contents[2] == 0xbf {
            assert(contents.take(3) =~= bom());
        }
        if has_bom(contents) {
            assert(contents.take(3)[0] == bom()[0]);
            assert(contents.take(3)[1] == bom()[1]);
            assert(contents.take(3)[2] == bom()[2]);
        }
    }
    let text = decode_utf8(text_bytes(contents));
    if has_crlf(text) {
        let i = choose|i: int| crlf_at(text, i);
        assert(text[i] == '\r');
    }
    if exists|i: int| 0 <= i < text.len() - 1 && #[trigger] text[i] == '\r' && text[i + 1]
        == '\n' {
        let i = choose|i: int|
            0 <= i < text.len() - 1 && #[trigger] text[i] == '\r' && text[i + 1] == '\n';
        assert(crlf_at(text, i));
    }
}

/// One character more is written as it is, but for a line feed in a file whose lines end in a
/// carriage return and a line feed; and a line ending that is read becomes a line feed.
pub proof fn one_character_more(text: Seq<char>, c: char)
    ensures
        to_crlf(Seq::empty()).len() == 0,
        to_lf(Seq::empty()).len() == 0,
        c == '\n' ==> to_crlf(text.push(c)) == to_crlf(text).push('\r').push('\n'),
        c != '\n' ==> to_crlf(text.push(c)) == to_crlf(text).push(c),
        c == '\n' && text.len() > 0 && text.last() == '\r' ==> to_lf(text.push(c)) == to_lf(
            text.drop_last(),
        ).push('\n'),
        !(c == '\n' && text.len() > 0 && text.last() == '\r') ==> to_lf(text.push(c)) == to_lf(
            text,
        ).push(c),
{
    let longer = text.push(c);
    assert(longer.drop_last() =~= text);
    if text.len() > 0 {
        assert(longer.take(longer.len() - 2) =~= text.drop_last());
    }
}

/// The mark and the text are all that is written: a file without the mark and with plain line
/// feeds is the text itself.
pub proof fn nothing_else_is_written(text: Seq<char>)
    ensures
        encoded(
            RemoteTextFormat { utf8_bom: false, line_ending: RemoteLineEnding::Lf },
            text,
        ) == encode_utf8(text),
        encoded(
            RemoteTextFormat { utf8_bom: true, line_ending: RemoteLineEnding::Lf },
            text,
        ) == seq![0xefu8, 0xbbu8, 0xbfu8] + encode_utf8(text),
{
}

} // verus!
