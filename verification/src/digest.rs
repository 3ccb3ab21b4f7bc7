//! MD5 digests, written as lowercase hexadecimal text.

use vstd::prelude::*;

verus! {

/// The MD5 digest of `data` as lowercase hexadecimal text: what `md5::Context::compute` returns of a
/// context that has consumed `data`, written with the format `{:x}`.
pub uninterp spec fn md5_hex(data: Seq<u8>) -> Seq<char>;

/// The state of an MD5 computation.
#[verifier::external_type_specification]
#[verifier::external_body]
pub struct ExContext(md5::Context);

/// The bytes that a context has consumed, in order.
pub uninterp spec fn consumed(context: md5::Context) -> Seq<u8>;

/// Calls `md5::Context::new`. The contract claims that a new context has consumed nothing.
#[verifier::external_body]
fn new_context() -> (r: md5::Context)
    ensures
        consumed(r) == Seq::<u8>::empty(),
{
    md5::Context::new()
}

/// Calls `md5::Context::consume`. The contract claims that the context has then consumed `data`
/// behind what it had consumed before.
#[verifier::external_body]
fn consume(context: &mut md5::Context, data: &[u8])
    ensures
        consumed(*final(context)) == consumed(*old(context)) + data@,
{
    context.consume(data)
}

/// Calls `md5::Context::compute` and writes the digest with `{:x}`. The contract claims that the
/// result is the digest of all bytes that the context has consumed, wherever they were cut.
#[verifier::external_body]
fn context_hex(context: md5::Context) -> (r: String)
    ensures
        r@ == md5_hex(consumed(context)),
{
    format!("{:x}", context.compute())
}

/// The digest of a file that is read block by block: a file may be larger than the memory.
pub struct FileHasher {
    context: md5::Context,
}

impl View for FileHasher {
    type V = Seq<u8>;

    /// The bytes read so far.
    closed spec fn view(&self) -> Seq<u8> {
        consumed(self.context)
    }
}

impl FileHasher {
    /// Nothing has been read.
    pub fn new() -> (r: Self)
        ensures
            r@ == Seq::<u8>::empty(),
    {
        FileHasher { context: new_context() }
    }

    /// One more block has been read.
    pub fn update(&mut self, block: &[u8])
        ensures
            final(self)@ == old(self)@ + block@,
    {
        consume(&mut self.context, block);
    }

    /// The digest of what was read. It does not depend on the size of the blocks.
    pub fn finish(self) -> (r: String)
        ensures
            r@ == md5_hex(self@),
    {
        context_hex(self.context)
    }
}

/// The digest of `data`.
pub fn md5_bytes(data: &[u8]) -> (r: String)
    ensures
        r@ == md5_hex(data@),
{
    let mut hasher = FileHasher::new();
    hasher.update(data);
    assert(hasher@ =~= data@);
    hasher.finish()
}

/// The digest of a file, given its blocks in order.
pub fn md5_file(blocks: &Vec<Vec<u8>>) -> (r: String)
    ensures
        r@ == md5_hex(blocks.deep_view().flatten()),
{
    let mut hasher = FileHasher::new();
    let ghost all = blocks.deep_view();
    assert(all.take(0).flatten() =~= Seq::<u8>::empty());
    let mut i: usize = 0;
    while i < blocks.len()
        invariant
            i <= blocks@.len(),
            all == blocks.deep_view(),
            hasher@ == all.take(i as int).flatten(),
        decreases blocks@.len() - i,
    {
        proof {
            assert(all[i as int] =~= blocks@[i as int]@);
            assert(all.take(i + 1) =~= all.take(i as int).push(all[i as int]));
            all.take(i as int).lemma_flatten_push(all[i as int]);
        }
        hasher.update(blocks[i].as_slice());
        i = i + 1;
    }
    assert(all.take(all.len() as int) =~= all);
    hasher.finish()
}

}
