//! The checksum engine: streams bytes in bounded chunks and produces a
//! deterministic content digest plus the total byte count. The digest is a
//! function of the full content alone — chunk boundaries are an
//! implementation detail and never show in the result.

use vstd::prelude::*;
use crate::manifest::Entry;

verus! {

#[verifier::external_type_specification]
#[verifier::external_body]
pub struct ExMd5Context(md5::Context);

/// The bytes a digest context has consumed so far.
pub uninterp spec fn context_bytes(c: md5::Context) -> Seq<u8>;

/// The 32 lowercase hexadecimal characters of the MD5 digest of a byte
/// sequence: a function of the bytes alone, identical on every machine.
pub uninterp spec fn md5_hex_of(bytes: Seq<u8>) -> Seq<char>;

/// Relies on md5::Context::new: a fresh context has consumed nothing.
#[verifier::external_body]
fn md5_context_new() -> (c: md5::Context)
    ensures
        context_bytes(c) == Seq::<u8>::empty(),
{
    md5::Context::new()
}

/// Relies on md5::Context::consume: appends the chunk to the bytes the
/// digest will be taken over.
#[verifier::external_body]
fn md5_consume(c: &mut md5::Context, chunk: &[u8])
    ensures
        context_bytes(*final(c)) == context_bytes(*old(c)) + chunk@,
{
    c.consume(chunk);
}

/// Relies on md5::Context::finalize and md5::Digest's LowerHex form: two
/// lowercase hex digits for each of the 16 digest bytes, determined by the
/// consumed bytes alone.
#[verifier::external_body]
fn md5_finalize_hex(c: md5::Context) -> (r: String)
    ensures
        r@ == md5_hex_of(context_bytes(c)),
        r@.len() == 32,
{
    format!("{:x}", c.finalize())
}

/// Streams a file's content chunk by chunk and yields its manifest entry:
/// the digest over the whole content and the total byte count.
pub struct Checksummer {
    ctx: md5::Context,
    size: usize,
}

impl Checksummer {
    /// The bytes consumed so far.
    pub closed spec fn bytes(&self) -> Seq<u8> {
        context_bytes(self.ctx)
    }

    /// The running count agrees with the consumed bytes.
    pub closed spec fn wf(&self) -> bool {
        self.size == self.bytes().len()
    }

    /// A checksummer that has consumed nothing.
    pub fn new() -> (r: Checksummer)
        ensures
            r.wf(),
            r.bytes() == Seq::<u8>::empty(),
    {
        Checksummer { ctx: md5_context_new(), size: 0 }
    }

    /// How many bytes went in so far.
    pub fn size_so_far(&self) -> (n: usize)
        requires
            self.wf(),
        ensures
            n == self.bytes().len(),
    {
        self.size
    }

    /// Feeds one chunk. Where the chunks came from does not matter: only
    /// the concatenation of everything consumed reaches the digest.
    pub fn consume(&mut self, chunk: &[u8])
        requires
            old(self).wf(),
            old(self).bytes().len() + chunk@.len() <= usize::MAX,
        ensures
            final(self).wf(),
            final(self).bytes() == old(self).bytes() + chunk@,
    {
        md5_consume(&mut self.ctx, chunk);
        self.size = self.size + chunk.len();
    }

    /// The entry for the consumed content: its digest text and byte count.
    pub fn finish(self) -> (e: Entry)
        requires
            self.wf(),
        ensures
            e@.checksum == md5_hex_of(self.bytes()),
            e@.size_bytes == self.bytes().len(),
    {
        let checksum = md5_finalize_hex(self.ctx);
        Entry { checksum, size_bytes: self.size }
    }

    /// The entry of content held in memory whole.
    pub fn entry_of_bytes(bytes: &Vec<u8>) -> (e: Entry)
        ensures
            e@.checksum == md5_hex_of(bytes@),
            e@.size_bytes == bytes@.len(),
    {
        let n = bytes.len();
        let mut c = Checksummer::new();
        c.consume(bytes.as_slice());
        let e = c.finish();
        proof {
            assert(Seq::<u8>::empty() + bytes@ =~= bytes@);
        }
        e
    }
}

} // verus!
