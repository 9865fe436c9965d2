use vstd::prelude::*;
use vstd::string::StringSliceAdditionalSpecFns;

use crate::error::NameError;

verus! {

/// The UTF-8 bytes of `chars`.
pub open spec fn utf8_bytes(chars: Seq<char>) -> Seq<u8> {
    vstd::utf8::encode_utf8(chars)
}

/// `i` is the byte position of the first NUL in `b`.
pub open spec fn is_first_nul(b: Seq<u8>, i: int) -> bool {
    &&& 0 <= i < b.len()
    &&& b[i] == 0
    &&& forall|j: int| 0 <= j < i ==> b[j] != 0
}

/// What [`Name::try_from`] makes of a string: the platform takes names as C
/// strings, which cannot hold a NUL byte.
pub open spec fn spec_name(s: Seq<char>) -> Result<Seq<char>, NameError> {
    if utf8_bytes(s).contains(0u8) {
        let i = choose|i: int| is_first_nul(utf8_bytes(s), i);
        Err(NameError::ContainsNul { position: i as usize })
    } else {
        Ok(s)
    }
}

/// A string without a NUL byte is taken as it is: the name's text is the
/// string.
pub proof fn lemma_nul_free_name_roundtrip(s: Seq<char>)
    requires
        !utf8_bytes(s).contains(0u8),
    ensures
        spec_name(s) == Ok::<Seq<char>, NameError>(s),
{
}

/// A client or port name that holds no NUL byte.
#[derive(Debug)]
pub struct Name(String);

impl View for Name {
    type V = Seq<char>;

    closed spec fn view(&self) -> Seq<char> {
        self.0@
    }
}

impl Clone for Name {
    fn clone(&self) -> (r: Name)
        ensures
            r@ == self@,
    {
        proof {
            use_type_invariant(self);
        }
        Name(self.0.clone())
    }
}

impl Name {
    #[verifier::type_invariant]
    spec fn inv(self) -> bool {
        !utf8_bytes(self.0@).contains(0u8)
    }

    /// The name as text.
    pub fn as_str(&self) -> (r: &str)
        ensures
            r@ == self@,
            !utf8_bytes(r@).contains(0u8),
    {
        proof {
            use_type_invariant(self);
        }
        self.0.as_str()
    }
}

impl TryFrom<&str> for Name {
    type Error = NameError;

    fn try_from(name: &str) -> (r: Result<Name, NameError>)
        ensures
            match r {
                Ok(n) => spec_name(name@) == Ok::<Seq<char>, NameError>(n@),
                Err(e) => spec_name(name@) == Err::<Seq<char>, NameError>(e),
            },
    {
        let bytes = name.as_bytes();
        let mut i: usize = 0;
        while i < bytes.len()
            invariant
                bytes@ == name.spec_bytes(),
                i <= bytes@.len(),
                forall|j: int| 0 <= j < i ==> bytes@[j] != 0,
            decreases bytes@.len() - i,
        {
            if bytes[i] == 0 {
                proof {
                    assert(is_first_nul(bytes@, i as int));
                    let c = choose|k: int| is_first_nul(utf8_bytes(name@), k);
                    assert(c == i);
                }
                return Err(NameError::ContainsNul { position: i });
            }
            i = i + 1;
        }
        proof {
            assert(!bytes@.contains(0u8));
        }
        Ok(Name(name.to_owned()))
    }
}

impl vstd::std_specs::convert::TryFromSpecImpl<&str> for Name {
    /// A name is described by its view, which the contract of `try_from` states.
    open spec fn obeys_try_from_spec() -> bool {
        false
    }

    open spec fn try_from_spec(name: &str) -> Result<Name, NameError> {
        Err(NameError::ContainsNul { position: 0 })
    }
}

} // verus!
