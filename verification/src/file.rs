//! Outgoing payloads and the files queued for sending.

use vstd::prelude::*;
use vstd::string::*;
use crate::path::{file_name, opt_chars, path_file_name};
use crate::text::{
    byte_prefix, chars_of, decimal, extend_chars, push_decimal, push_str_chars, remove_newlines,
    string_of, without_newlines,
};

verus! {

broadcast use vstd::utf8::group_utf8_lib;

/// How a payload travels: as a file on disk or as literal text.
#[derive(Clone, Copy, Debug, PartialEq, Eq, Structural)]
pub enum TransferType {
    File,
    Text,
}

/// What is sent: a path to a file, or the text itself.
#[derive(Clone, Debug)]
pub enum Payload {
    Path(String),
    Text(String),
}

/// A payload queued for one peer, with the name shown to the receiver.
///
/// `peer` is the peer's identity in its textual (base58) form.
#[derive(Clone, Debug)]
pub struct FileToSend {
    pub peer: String,
    pub name: String,
    pub payload: Payload,
    pub transfer_type: TransferType,
}

/// Why a `FileToSend` could not be made.
#[derive(Clone, Copy, Debug, PartialEq, Eq, Structural)]
pub enum FileError {
    /// A path payload was given without its resolved (canonical) form.
    PathNotResolved,
    /// The resolved path has no final file-name component (such as `/`).
    NoFileName,
}

/// The name of a text payload: the first five bytes of the text followed
/// by `" (...)"`, with line feeds removed, when byte five falls on a
/// character boundary; `"text"` otherwise.
pub open spec fn text_name(text: Seq<char>) -> Seq<char> {
    match byte_prefix(text, 5) {
        Some(head) => without_newlines(head) + " (...)"@,
        None => "text"@,
    }
}

/// The text a transfer type is shown as.
pub open spec fn transfer_type_text(t: TransferType) -> Seq<char> {
    match t {
        TransferType::File => "File"@,
        TransferType::Text => "Text"@,
    }
}

/// The length in bytes of the UTF-8 encoding of `s`, as `str::len` gives it.
pub open spec fn byte_len(s: Seq<char>) -> nat {
    (vstd::utf8::encode_utf8(s).len() as usize) as nat
}

/// The text a payload is shown as: the path for a path payload, the length
/// in bytes (of its UTF-8 encoding) for a text payload.
pub open spec fn payload_text(p: Payload) -> Seq<char> {
    match p {
        Payload::Path(path) => "PathPayload("@ + path@ + ")"@,
        Payload::Text(text) => "TextPayload("@ + decimal(byte_len(text@)) + ")"@,
    }
}

/// The text a queued file is shown as.
pub open spec fn file_to_send_text(f: FileToSend) -> Seq<char> {
    "FileToSend name: "@ + f.name@ + ", type: "@ + transfer_type_text(f.transfer_type)
}

/// What is left after removing line feeds holds none.
pub proof fn lemma_without_newlines(s: Seq<char>)
    ensures
        !without_newlines(s).contains('\n'),
    decreases s.len(),
{
    if s.len() > 0 {
        lemma_without_newlines(s.drop_last());
        let w = without_newlines(s.drop_last());
        if s.last() != '\n' {
            assert forall|k: int| 0 <= k < w.push(s.last()).len() implies w.push(s.last())[k] != '\n' by {
                if k < w.len() {
                    assert(w.push(s.last())[k] == w[k]);
                    if w[k] == '\n' {
                        assert(w.contains('\n'));
                    }
                }
            }
        }
    }
}

/// The name given to a text payload never holds a line feed.
pub proof fn law_text_name_is_one_line(text: Seq<char>)
    ensures
        !text_name(text).contains('\n'),
{
    reveal_strlit(" (...)");
    reveal_strlit("text");
    if let Some(head) = byte_prefix(text, 5) {
        lemma_without_newlines(head);
        let w = without_newlines(head);
        let t = w + " (...)"@;
        assert forall|k: int| 0 <= k < t.len() implies t[k] != '\n' by {
            if k < w.len() {
                if w[k] == '\n' {
                    assert(w.contains('\n'));
                }
            }
        }
    }
}

/// For ASCII text the name is plain: the first five characters (less line
/// feeds) followed by `" (...)"` when there are at least five, `"text"`
/// otherwise.
pub proof fn law_ascii_text_name(text: Seq<char>)
    requires
        vstd::utf8::is_ascii_chars(text),
    ensures
        text.len() >= 5 ==> text_name(text) == without_newlines(text.take(5)) + " (...)"@,
        text.len() < 5 ==> text_name(text) == "text"@,
{
    let bytes = vstd::utf8::encode_utf8(text);
    vstd::utf8::is_ascii_chars_encode_utf8(text);
    if text.len() >= 5 {
        let head = text.take(5);
        assert(vstd::utf8::is_ascii_chars(head));
        vstd::utf8::is_ascii_chars_encode_utf8(head);
        if text.len() > 5 {
            assert(text[5] as u8 == bytes[5]);
            assert(vstd::utf8::is_leading_byte_width_1(bytes[5]));
            vstd::utf8::is_char_boundary_iff_is_leading_byte(bytes, 5);
        }
        assert(vstd::utf8::encode_utf8(head) =~= bytes.subrange(0, 5)) by {
            assert forall|i: int| 0 <= i < 5 implies vstd::utf8::encode_utf8(head)[i] == bytes[i] by {
                assert(head[i] == text[i]);
            }
        }
        assert(byte_prefix(text, 5) == Some(head));
    }
}

/// Whenever the first five characters of a text are ASCII, whatever
/// follows them, its name is those five characters less line feeds,
/// followed by `" (...)"`.
pub proof fn law_ascii_head_text_name(text: Seq<char>)
    requires
        text.len() >= 5,
        vstd::utf8::is_ascii_chars(text.take(5)),
    ensures
        text_name(text) == without_newlines(text.take(5)) + " (...)"@,
{
    let head = text.take(5);
    crate::text::lemma_encode_split(text, 5);
    vstd::utf8::is_ascii_chars_encode_utf8(head);
    let bytes = vstd::utf8::encode_utf8(text);
    assert(bytes.subrange(0, 5) =~= vstd::utf8::encode_utf8(head));
    assert(byte_prefix(text, 5) == Some(head));
}

impl TransferType {
    /// The transfer type as text.
    pub fn to_string(&self) -> (s: String)
        ensures
            s@ == transfer_type_text(*self),
    {
        match self {
            TransferType::File => "File".to_owned(),
            TransferType::Text => "Text".to_owned(),
        }
    }
}

impl Payload {
    /// The payload for a transfer of `transfer_type` from `path`.
    ///
    /// A file transfer sends the path itself; a text transfer sends
    /// `contents`, the text read from the file at `path` (whatever part of it
    /// could be read). `contents` is not looked at for a file transfer.
    pub fn new(transfer_type: TransferType, path: String, contents: String) -> (p: Payload)
        ensures
            p == (match transfer_type {
                TransferType::File => Payload::Path(path),
                TransferType::Text => Payload::Text(contents),
            }),
    {
        match transfer_type {
            TransferType::File => Payload::Path(path),
            TransferType::Text => Payload::Text(contents),
        }
    }

    /// The payload as text (see `payload_text`).
    pub fn to_string(&self) -> (s: String)
        ensures
            s@ == payload_text(*self),
    {
        let mut out: Vec<char> = Vec::new();
        match self {
            Payload::Path(path) => {
                push_str_chars(&mut out, "PathPayload(");
                push_str_chars(&mut out, path.as_str());
            },
            Payload::Text(text) => {
                push_str_chars(&mut out, "TextPayload(");
                push_decimal(&mut out, text.as_str().len());
            },
        }
        push_str_chars(&mut out, ")");
        proof {
            match self {
                Payload::Path(path) => {
                    assert(out@ =~= "PathPayload("@ + path@ + ")"@);
                },
                Payload::Text(text) => {
                    assert(out@ =~= "TextPayload("@ + decimal(byte_len(text@)) + ")"@);
                },
            }
        }
        string_of(&out)
    }
}

impl FileToSend {
    /// Prepares `payload` for sending to `peer`.
    ///
    /// A text payload is named after its text (see `text_name`). A path
    /// payload is named after the file name of its resolved form
    /// `resolved_path` (the canonical path of the file); it fails with
    /// `NoFileName` where that has none, and with `PathNotResolved` where no
    /// resolved form is given.
    pub fn new(peer: &String, payload: Payload, resolved_path: Option<&str>) -> (r: Result<FileToSend, FileError>)
        ensures
            match payload {
                Payload::Path(path) => match resolved_path {
                    None => r == Err::<FileToSend, FileError>(FileError::PathNotResolved),
                    Some(resolved) => match path_file_name(resolved@) {
                        None => r == Err::<FileToSend, FileError>(FileError::NoFileName),
                        Some(name) => r matches Ok(f) && f.peer == *peer && f.name@ == name
                            && f.payload == Payload::Path(path)
                            && f.transfer_type == TransferType::File,
                    },
                },
                Payload::Text(text) => r matches Ok(f) && f.peer == *peer && f.name@ == text_name(
                    text@,
                ) && f.payload == Payload::Text(text) && f.transfer_type == TransferType::Text,
            },
    {
        match payload {
            Payload::Path(path) => {
                match resolved_path {
                    None => Err(FileError::PathNotResolved),
                    Some(resolved) => match Self::extract_name_path(resolved) {
                        Some(name) => Ok(
                            FileToSend {
                                name,
                                payload: Payload::Path(path),
                                peer: peer.clone(),
                                transfer_type: TransferType::File,
                            },
                        ),
                        None => Err(FileError::NoFileName),
                    },
                }
            },
            Payload::Text(text) => {
                let name = Self::extract_name_text(text.as_str());
                Ok(
                    FileToSend {
                        name,
                        payload: Payload::Text(text),
                        peer: peer.clone(),
                        transfer_type: TransferType::Text,
                    },
                )
            },
        }
    }

    /// The display name of a path payload, from its resolved (canonical)
    /// path: the path's file name (see `path_file_name`), if it has one.
    pub fn extract_name_path(resolved_path: &str) -> (name: Option<String>)
        ensures
            opt_chars(name) == path_file_name(resolved_path@),
    {
        file_name(resolved_path)
    }

    /// The queued file as text (see `file_to_send_text`).
    pub fn to_string(&self) -> (s: String)
        ensures
            s@ == file_to_send_text(*self),
    {
        let mut out: Vec<char> = Vec::new();
        push_str_chars(&mut out, "FileToSend name: ");
        push_str_chars(&mut out, self.name.as_str());
        push_str_chars(&mut out, ", type: ");
        let t = self.transfer_type.to_string();
        push_str_chars(&mut out, t.as_str());
        assert(out@ =~= file_to_send_text(*self));
        string_of(&out)
    }

    /// The display name of a text payload (see `text_name`).
    pub fn extract_name_text(text: &str) -> (name: String)
        ensures
            name@ == text_name(text@),
    {
        if text.is_char_boundary(5) {
            let (head, _rest) = text.split_at(5);
            proof {
                assert(vstd::utf8::encode_utf8(head@) =~= vstd::utf8::encode_utf8(text@).subrange(0, 5));
            }
            let head_chars = chars_of(head);
            let mut out = remove_newlines(&head_chars);
            let suffix = chars_of(" (...)");
            extend_chars(&mut out, &suffix);
            string_of(&out)
        } else {
            "text".to_owned()
        }
    }
}

} // verus!
