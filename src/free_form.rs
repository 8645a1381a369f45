use vstd::prelude::*;
use vstd::string::StringSliceAdditionalSpecFns;
use crate::grammar::bytes_equal;
use crate::grammar::valid_id;
use crate::kinds::{InvoiceKind, InvoiceTypedId};
use crate::typed::{starts_with_any, IdKind, ParseIdError, ParseIdErrorKind};

verus! {

/// The text of the invoice sentinel.
pub open spec fn invoice_sentinel() -> Seq<u8> {
    "in_".spec_bytes()
}

/// An invoice id, or the sentinel `in_` that stands for no invoice. Empty
/// text and the text `in_` both read as the sentinel.
#[derive(Debug, Clone, Copy)]
pub struct InvoiceId {
    id: Option<InvoiceTypedId>,
}

impl View for InvoiceId {
    type V = Option<Seq<u8>>;

    closed spec fn view(&self) -> Option<Seq<u8>> {
        match self.id {
            Some(id) => Some(id@),
            None => None,
        }
    }
}

impl InvoiceId {
    /// The sentinel.
    pub fn none() -> (r: Self)
        ensures
            r@ is None,
    {
        InvoiceId { id: None }
    }

    /// Whether this is the sentinel.
    pub fn is_none(&self) -> (r: bool)
        ensures
            r == (self@ is None),
    {
        self.id.is_none()
    }

    /// Wraps a real invoice id.
    pub fn from_typed(id: InvoiceTypedId) -> (r: Self)
        ensures
            r@ == Some(id@),
    {
        InvoiceId { id: Some(id) }
    }

    /// Parses `s`: the sentinel for empty text or `in_`, else as an invoice
    /// id.
    pub fn from_str(s: &str) -> (r: Result<Self, ParseIdError>)
        ensures
            ({
                let b = s.spec_bytes();
                let known = starts_with_any(b, InvoiceKind::prefix_set());
                if b.len() == 0 || b == invoice_sentinel() {
                    r matches Ok(v) && v@ is None
                } else {
                    &&& r is Ok <==> known && valid_id(b)
                    &&& r matches Ok(v) ==> v@ == Some(b)
                    &&& r matches Err(e) ==> e.kind == (if known {
                        ParseIdErrorKind::Malformed
                    } else {
                        ParseIdErrorKind::PrefixMismatch
                    })
                }
            }),
    {
        let b = s.as_bytes();
        if b.len() == 0 || bytes_equal(b, "in_".as_bytes()) {
            return Ok(InvoiceId { id: None });
        }
        match InvoiceTypedId::from_str(s) {
            Ok(id) => Ok(InvoiceId { id: Some(id) }),
            Err(e) => Err(e),
        }
    }

    /// The text: the invoice id, or `in_` for the sentinel.
    pub fn as_str(&self) -> (r: &str)
        ensures
            r.spec_bytes() == match self@ {
                Some(v) => v,
                None => invoice_sentinel(),
            },
    {
        match &self.id {
            Some(id) => id.as_str(),
            None => "in_",
        }
    }
}

impl PartialEq for InvoiceId {
    fn eq(&self, other: &InvoiceId) -> (r: bool) {
        match (&self.id, &other.id) {
            (Some(a), Some(b)) => bytes_equal(a.as_bytes(), b.as_bytes()),
            (None, None) => true,
            _ => false,
        }
    }
}

impl vstd::std_specs::cmp::PartialEqSpecImpl for InvoiceId {
    open spec fn obeys_eq_spec() -> bool {
        true
    }

    open spec fn eq_spec(&self, other: &InvoiceId) -> bool {
        self@ == other@
    }
}

/// A product id: any text that its owner chose, with no grammar or prefix.
#[derive(Debug)]
pub struct ProductId {
    text: String,
}

impl Clone for ProductId {
    fn clone(&self) -> (r: Self)
        ensures
            r@ == self@,
    {
        ProductId { text: self.text.clone() }
    }
}

impl View for ProductId {
    type V = Seq<char>;

    closed spec fn view(&self) -> Seq<char> {
        self.text@
    }
}

impl ProductId {
    /// Takes any text: always `Ok`, holding `s`.
    pub fn from_str(s: &str) -> (r: Result<Self, ParseIdError>)
        ensures
            r matches Ok(v) && v@ == s@,
    {
        Ok(ProductId { text: s.to_owned() })
    }

    /// The text.
    pub fn as_str(&self) -> (r: &str)
        ensures
            r@ == self@,
    {
        self.text.as_str()
    }
}

} // verus!
