//! Secret text that is read only on purpose and erased when it goes away.
use vstd::prelude::*;
use zeroize::Zeroize;

verus! {

/// A piece of secret text.
///
/// The text can be read only through [`Secret::expose`]. The type has no
/// formatting of its own: what may be shown in its place is
/// [`Secret::redacted`]. The memory behind the text is overwritten when the
/// value is dropped.
pub struct Secret {
    text: String,
}

impl View for Secret {
    type V = Seq<char>;

    closed spec fn view(&self) -> Seq<char> {
        self.text@
    }
}

/// What is shown in place of any secret.
pub open spec fn redaction_mask() -> Seq<char> {
    seq!['*', '*', '*', '*', '*', '*', '*', '*']
}

/// `Zeroize::zeroize` on a `String`: overwrites the whole buffer of the string
/// with zero bytes, spare capacity included, and leaves the string empty.
#[verifier::external_body]
fn erase(text: &mut String)
    ensures
        final(text)@ == Seq::<char>::empty(),
    opens_invariants none
    no_unwind
{
    text.zeroize();
}

/// `String::with_capacity`: an empty string with room for `bytes` bytes.
#[verifier::external_body]
fn string_with_capacity(bytes: usize) -> (s: String)
    requires
        bytes <= isize::MAX,
    ensures
        s@ == Seq::<char>::empty(),
{
    String::with_capacity(bytes)
}

/// `String::push`: appends one character.
#[verifier::external_body]
fn string_push(s: &mut String, c: char)
    ensures
        final(s)@ == old(s)@.push(c),
{
    s.push(c);
}

impl Secret {
    /// Wraps `text`, taking ownership of its buffer.
    pub fn new(text: String) -> (s: Secret)
        ensures
            s@ == text@,
    {
        Secret { text }
    }

    /// An empty secret with room for `bytes` bytes of text, so that filling it
    /// does not move the text through memory.
    pub fn with_capacity(bytes: usize) -> (s: Secret)
        requires
            bytes <= isize::MAX,
        ensures
            s@ == Seq::<char>::empty(),
    {
        Secret { text: string_with_capacity(bytes) }
    }

    /// Appends one character to the secret.
    pub fn push(&mut self, c: char)
        ensures
            final(self)@ == old(self)@.push(c),
    {
        string_push(&mut self.text, c);
    }

    /// Appends `text` to the secret.
    pub fn push_str(&mut self, text: &str)
        ensures
            final(self)@ == old(self)@ + text@,
    {
        self.text.append(text);
    }

    /// The secret text itself. This is the one way to read it.
    pub fn expose(&self) -> (t: &str)
        ensures
            t@ == self@,
    {
        self.text.as_str()
    }

    /// The number of characters of the secret.
    pub fn len(&self) -> (n: usize)
        ensures
            n == self@.len(),
    {
        self.text.as_str().unicode_len()
    }

    /// The text to show where a secret would otherwise appear. It is the same
    /// for every secret.
    pub fn redacted(&self) -> (t: String)
        ensures
            t@ == redaction_mask(),
    {
        proof {
            reveal_strlit("********");
        }
        let t = String::from_str("********");
        assert(t@ =~= redaction_mask());
        t
    }

    /// Overwrites the secret text with zeros and leaves the secret empty.
    pub fn wipe(&mut self)
        ensures
            final(self)@ == Seq::<char>::empty(),
    {
        erase(&mut self.text);
    }
}

impl Clone for Secret {
    /// A second secret with the same text.
    fn clone(&self) -> (c: Secret)
        ensures
            c@ == self@,
    {
        Secret { text: self.text.clone() }
    }
}

impl PartialEq for Secret {
    fn eq(&self, other: &Secret) -> (r: bool) {
        self.text == other.text
    }
}

impl vstd::std_specs::cmp::PartialEqSpecImpl for Secret {
    open spec fn obeys_eq_spec() -> bool {
        true
    }

    open spec fn eq_spec(&self, other: &Secret) -> bool {
        self@ == other@
    }
}

impl Drop for Secret {
    fn drop(&mut self)
        opens_invariants none
        no_unwind
    {
        erase(&mut self.text);
    }
}

} // verus!
