//! Secret byte buffers that are wiped when they go out of scope.

use vstd::prelude::*;

verus! {

/// The formatter that `Debug` implementations write to. Opaque: this crate only hands it
/// to `write!`.
#[verifier::external_type_specification]
#[verifier::external_body]
pub struct ExFormatter<'a>(core::fmt::Formatter<'a>);

/// The error of a formatter. Opaque: this crate only passes it on.
#[verifier::external_type_specification]
#[verifier::external_body]
pub struct ExFormatError(core::fmt::Error);

/// The guard that keeps memory pages locked in RAM for as long as it lives. Opaque: this
/// crate only keeps it.
#[verifier::external_type_specification]
#[verifier::external_body]
pub struct ExLockGuard(region::LockGuard);

/// `zeroize::Zeroize::zeroize` on an array: every byte is zero afterwards. (The writes are
/// volatile, so that the compiler does not drop them. That is not expressed here.)
#[verifier::external_body]
fn wipe<const N: usize>(bytes: &mut [u8; N])
    ensures
        final(bytes)@ == crate::bytes::repeated(0, N as nat),
    opens_invariants none
    no_unwind
{
    zeroize::Zeroize::zeroize(bytes)
}

/// `region::lock` over the buffer: asks the operating system to keep its pages out of swap.
/// Whether it agrees depends on the machine, so nothing is said of the result.
#[verifier::external_body]
fn lock_pages<const N: usize>(bytes: &[u8; N]) -> (r: Option<region::LockGuard>) {
    region::lock(bytes.as_ptr(), N).ok()
}

/// A secret of `N` bytes. The buffer is overwritten with zeros when the value is dropped,
/// and `Debug` never prints it.
pub struct SecretBytes<const N: usize> {
    bytes: [u8; N],
}

impl<const N: usize> SecretBytes<N> {
    pub closed spec fn view(&self) -> Seq<u8> {
        self.bytes@
    }

    pub fn from_array(bytes: [u8; N]) -> (r: Self)
        ensures
            r@ == bytes@,
            r@.len() == N,
    {
        SecretBytes { bytes }
    }

    pub fn expose(&self) -> (r: &[u8; N])
        ensures
            r@ == self@,
    {
        &self.bytes
    }

    /// Best-effort: pins the pages that hold the secret against swapping. Failure is silent:
    /// a wallet that refuses to run where locking is not available would be worse.
    pub fn lock_secret_memory(&self) -> Option<region::LockGuard> {
        lock_pages(&self.bytes)
    }
}

impl<const N: usize> Drop for SecretBytes<N> {
    fn drop(&mut self)
        opens_invariants none
        no_unwind
    {
        wipe(&mut self.bytes);
    }
}

impl<const N: usize> core::fmt::Debug for SecretBytes<N> {
    /// `write!` of a fixed text: the secret is not among its arguments.
    #[verifier::external_body]
    fn fmt(&self, f: &mut core::fmt::Formatter<'_>) -> core::fmt::Result {
        write!(f, "SecretBytes(REDACTED)")
    }
}

/// `zeroize::Zeroize::zeroize` on a vector: every byte of it is overwritten, and it is empty
/// afterwards.
#[verifier::external_body]
fn wipe_vec(bytes: &mut Vec<u8>)
    ensures
        final(bytes)@ == Seq::<u8>::empty(),
    opens_invariants none
    no_unwind
{
    zeroize::Zeroize::zeroize(bytes)
}

/// A secret of any length that is overwritten with zeros when it is dropped.
pub struct SecretVec {
    bytes: Vec<u8>,
}

impl SecretVec {
    pub closed spec fn view(&self) -> Seq<u8> {
        self.bytes@
    }

    pub fn from_vec(bytes: Vec<u8>) -> (r: Self)
        ensures
            r@ == bytes@,
    {
        SecretVec { bytes }
    }

    pub fn expose(&self) -> (r: &[u8])
        ensures
            r@ == self@,
    {
        self.bytes.as_slice()
    }
}

impl Drop for SecretVec {
    fn drop(&mut self)
        opens_invariants none
        no_unwind
    {
        wipe_vec(&mut self.bytes);
    }
}

/// `zeroize::Zeroize::zeroize` on a text: every byte of it is overwritten, and it is empty
/// afterwards.
#[verifier::external_body]
fn wipe_text(text: &mut String)
    ensures
        final(text)@ == Seq::<char>::empty(),
    opens_invariants none
    no_unwind
{
    zeroize::Zeroize::zeroize(text)
}

/// A secret text, such as a passphrase, that is overwritten with zeros when it is dropped.
/// `Debug` never prints it.
pub struct SecretText {
    text: String,
}

impl SecretText {
    pub closed spec fn view(&self) -> Seq<char> {
        self.text@
    }

    pub fn from_text(text: String) -> (r: Self)
        ensures
            r@ == text@,
    {
        SecretText { text }
    }

    pub fn expose(&self) -> (r: &str)
        ensures
            r@ == self@,
    {
        self.text.as_str()
    }
}

impl Drop for SecretText {
    fn drop(&mut self)
        opens_invariants none
        no_unwind
    {
        wipe_text(&mut self.text);
    }
}

impl core::fmt::Debug for SecretText {
    /// `write!` of a fixed text: the secret is not among its arguments.
    #[verifier::external_body]
    fn fmt(&self, f: &mut core::fmt::Formatter<'_>) -> core::fmt::Result {
        write!(f, "SecretText(REDACTED)")
    }
}

} // verus!
