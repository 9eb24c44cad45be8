//! File-system paths as the byte strings that Unix paths are, and the way a
//! component is appended to one.
use vstd::prelude::*;
use vstd::utf8::*;

verus! {

/// A file-system path, held as its bytes.
pub struct FsPath {
    pub bytes: Vec<u8>,
}

impl View for FsPath {
    type V = Seq<u8>;

    open spec fn view(&self) -> Seq<u8> {
        self.bytes@
    }
}

/// The path separator `/`.
pub open spec fn sep() -> u8 {
    0x2f
}

/// `base` with `comp` appended as `PathBuf::push` does on Unix: an absolute
/// `comp` replaces `base`; otherwise a separator goes between them unless
/// `base` is empty or already ends in one.
pub open spec fn path_join(base: Seq<u8>, comp: Seq<u8>) -> Seq<u8> {
    if comp.len() > 0 && comp[0] == sep() {
        comp
    } else if base.len() > 0 && base.last() != sep() {
        base.push(sep()) + comp
    } else {
        base + comp
    }
}

/// `path_join` with a text component, taken as its UTF-8 bytes.
pub open spec fn path_join_str(base: Seq<u8>, comp: Seq<char>) -> Seq<u8> {
    path_join(base, encode_utf8(comp))
}

/// The text of a path that is valid UTF-8.
pub open spec fn path_text(p: Seq<u8>) -> Seq<char> {
    decode_utf8(p)
}

/// Calls `std::str::from_utf8`: the text whose UTF-8 encoding the bytes are,
/// if they are valid UTF-8.
#[verifier::external_body]
fn utf8_text(bytes: &[u8]) -> (res: Option<String>)
    ensures
        res is Some <==> valid_utf8(bytes@),
        res matches Some(s) ==> s@ == decode_utf8(bytes@),
{
    match std::str::from_utf8(bytes) {
        Ok(s) => Some(s.to_string()),
        Err(_) => None,
    }
}

fn append_bytes(dst: &mut Vec<u8>, src: &[u8])
    ensures
        final(dst)@ == old(dst)@ + src@,
{
    let mut i: usize = 0;
    while i < src.len()
        invariant
            i <= src@.len(),
            dst@ == old(dst)@ + src@.take(i as int),
        decreases src@.len() - i,
    {
        dst.push(src[i]);
        assert(src@.take(i + 1) =~= src@.take(i as int).push(src@[i as int]));
        i = i + 1;
    }
    assert(src@.take(src@.len() as int) =~= src@);
}

impl FsPath {
    /// The path whose bytes are the UTF-8 encoding of `s` (`PathBuf::from`).
    pub fn from_text(s: &str) -> (res: FsPath)
        ensures
            res@ == encode_utf8(s@),
    {
        let mut bytes: Vec<u8> = Vec::new();
        append_bytes(&mut bytes, s.as_bytes());
        assert(bytes@ =~= encode_utf8(s@));
        FsPath { bytes }
    }

    /// A copy of this path.
    pub fn duplicate(&self) -> (res: FsPath)
        ensures
            res@ == self@,
    {
        FsPath { bytes: self.bytes.clone() }
    }

    /// Appends a component, as `PathBuf::push` does on Unix.
    pub fn push(&mut self, comp: &str)
        ensures
            final(self)@ == path_join_str(old(self)@, comp@),
    {
        let cb = comp.as_bytes();
        if cb.len() > 0 && cb[0] == 0x2f {
            let mut bytes: Vec<u8> = Vec::new();
            append_bytes(&mut bytes, cb);
            self.bytes = bytes;
        } else {
            let n = self.bytes.len();
            if n > 0 && self.bytes[n - 1] != 0x2f {
                self.bytes.push(0x2f);
            }
            append_bytes(&mut self.bytes, cb);
        }
    }

    /// This path with `comp` appended.
    pub fn join(&self, comp: &str) -> (res: FsPath)
        ensures
            res@ == path_join_str(self@, comp@),
    {
        let mut p = self.duplicate();
        p.push(comp);
        p
    }

    /// This path with the bytes of `suffix` added at its end, with no
    /// separator (how `PathBuf::set_extension` adds an extension to a file
    /// name that has none).
    pub fn with_suffix(&self, suffix: &str) -> (res: FsPath)
        ensures
            res@ == self@ + encode_utf8(suffix@),
    {
        let mut bytes = self.bytes.clone();
        append_bytes(&mut bytes, suffix.as_bytes());
        FsPath { bytes }
    }

    /// The path as text (`Path::to_str`): `None` unless its bytes are valid UTF-8.
    pub fn to_text(&self) -> (res: Option<String>)
        ensures
            res is Some <==> valid_utf8(self@),
            res matches Some(s) ==> s@ == path_text(self@),
    {
        utf8_text(self.bytes.as_slice())
    }
}

} // verus!
