//! Content digests. A file is read block by block and fed to a `Hasher`;
//! what comes out is the MD5 digest of all the bytes together, in lower-case
//! hexadecimal. The digest serves to notice change, not to resist attack.
//!
//! MD5 itself is computed by the `md5` crate and is not proved here.

use md5::Context;
use vstd::prelude::*;

verus! {

#[verifier::external_type_specification]
#[verifier::external_body]
pub struct ExContext(Context);

/// The MD5 digest of `data` as `md5::compute` gives it, written as 32
/// lower-case hexadecimal digits.
pub uninterp spec fn md5_hex(data: Seq<u8>) -> Seq<char>;

/// The bytes that a context has consumed since `md5::Context::new` made it,
/// in order.
pub uninterp spec fn consumed(context: Context) -> Seq<u8>;

/// `md5::Context::new`: a context that has consumed nothing. Trusted.
#[verifier::external_body]
fn context_new() -> (context: Context)
    ensures
        consumed(context) == Seq::<u8>::empty(),
{
    Context::new()
}

/// `md5::Context::consume`: the context takes `data` in after what it has
/// consumed before. Trusted.
#[verifier::external_body]
fn context_consume(context: &mut Context, data: &[u8])
    ensures
        consumed(*final(context)) == consumed(*old(context)) + data@,
{
    context.consume(data);
}

/// `md5::Context::compute`, printed with `{:x}`: the digest of everything
/// that the context has consumed, which is the digest that `md5::compute`
/// gives for those bytes in one piece. The text has 32 characters, two for
/// each of the digest's 16 bytes. Trusted.
#[verifier::external_body]
fn context_hex(context: Context) -> (hex: String)
    ensures
        hex@ == md5_hex(consumed(context)),
        hex@.len() == 32,
{
    format!("{:x}", context.compute())
}

/// The number of bytes that a caller is advised to read at a time.
pub const BUFFER_SIZE: usize = 65536;

/// A digest in the making.
pub struct Hasher {
    context: Context,
}

impl View for Hasher {
    type V = Seq<u8>;

    /// The bytes taken in so far.
    closed spec fn view(&self) -> Seq<u8> {
        consumed(self.context)
    }
}

impl Hasher {
    /// A hasher that has taken in nothing.
    pub fn new() -> (hasher: Hasher)
        ensures
            hasher@ == Seq::<u8>::empty(),
    {
        Hasher { context: context_new() }
    }

    /// Takes in the next block.
    pub fn update(&mut self, block: &[u8])
        ensures
            final(self)@ == old(self)@ + block@,
    {
        context_consume(&mut self.context, block);
    }

    /// The digest of all that was taken in. It is never empty.
    pub fn finish(self) -> (hex: String)
        ensures
            hex@ == md5_hex(self@),
            hex@.len() == 32,
    {
        context_hex(self.context)
    }
}

/// The bytes of `blocks`, one block after the other.
pub open spec fn concatenated(blocks: Seq<Vec<u8>>) -> Seq<u8>
    decreases blocks.len(),
{
    if blocks.len() == 0 {
        Seq::empty()
    } else {
        concatenated(blocks.drop_last()) + blocks.last()@
    }
}

/// The digest of `data`.
pub fn digest_of(data: &[u8]) -> (hex: String)
    ensures
        hex@ == md5_hex(data@),
        hex@.len() == 32,
{
    let mut hasher = Hasher::new();
    hasher.update(data);
    assert(hasher@ =~= data@);
    hasher.finish()
}

/// The digest of content that comes in blocks. How the content is cut into
/// blocks makes no difference: the digest is that of the bytes together.
pub fn digest_of_blocks(blocks: &Vec<Vec<u8>>) -> (hex: String)
    ensures
        hex@ == md5_hex(concatenated(blocks@)),
        hex@.len() == 32,
{
    let mut hasher = Hasher::new();
    let mut i: usize = 0;
    while i < blocks.len()
        invariant
            i <= blocks.len(),
            hasher@ == concatenated(blocks@.take(i as int)),
        decreases blocks.len() - i,
    {
        hasher.update(blocks[i].as_slice());
        assert(blocks@.take(i + 1).drop_last() =~= blocks@.take(i as int));
        i += 1;
    }
    assert(blocks@.take(i as int) =~= blocks@);
    hasher.finish()
}

} // verus!
