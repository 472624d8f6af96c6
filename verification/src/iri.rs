//! References to other documents: IRI references, absolute or relative.
use vstd::prelude::*;
use vstd::string::*;

verus! {

/// Whether a text is an IRI reference.
pub uninterp spec fn iri_reference_valid(text: Seq<char>) -> bool;

/// `iri_string::validate::iri_reference`, for IRIs, accepts exactly the IRI references.
/// The contract only names its verdict.
#[verifier::external_body]
fn validate(text: &str) -> (r: bool)
    ensures
        r == iri_reference_valid(text@),
{
    iri_string::validate::iri_reference::<iri_string::spec::IriSpec>(text).is_ok()
}

/// An IRI reference.
#[derive(Debug)]
pub struct IriReference {
    text: String,
}

impl IriReference {
    #[verifier::type_invariant]
    spec fn inv(self) -> bool {
        iri_reference_valid(self.text@)
    }

    /// The text of the reference.
    pub closed spec fn view(&self) -> Seq<char> {
        self.text@
    }

    /// Reads an IRI reference: `None` where the text is none. The text is kept as it is.
    pub fn parse(input: &str) -> (r: Option<IriReference>)
        ensures
            match r {
                Some(i) => iri_reference_valid(input@) && i@ == input@,
                None => !iri_reference_valid(input@),
            },
    {
        if validate(input) {
            Some(IriReference { text: String::from_str(input) })
        } else {
            None
        }
    }

    /// The text of the reference.
    pub fn as_str(&self) -> (r: &str)
        ensures
            r@ == self@,
            iri_reference_valid(self@),
    {
        proof {
            use_type_invariant(self);
        }
        self.text.as_str()
    }
}

} // verus!
