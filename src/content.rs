use vstd::prelude::*;

verus! {

/// Whether a byte string starts with the binary form of a content identifier,
/// as the `cid` crate reads it.
pub uninterp spec fn cid_parses(bytes: Seq<u8>) -> bool;

/// The debug text (`Cid(<multibase>)`) that the `cid` crate gives for the
/// identifier read from these bytes.
pub uninterp spec fn cid_debug_text(bytes: Seq<u8>) -> Seq<char>;

/// The length of the binary form of the identifier that these bytes start
/// with, as the `cid` crate reads it.
pub uninterp spec fn cid_read_len(bytes: Seq<u8>) -> nat;

/// Relies on `cid::Cid::try_from(&[u8])`, which reads an identifier from the
/// start of the bytes, and on `Cid::encoded_len`, the length of its binary
/// form: the bytes that the reading took.
#[verifier::external_body]
fn read_cid_len(bytes: &[u8]) -> (r: Option<usize>)
    ensures
        r is Some <==> cid_parses(bytes@),
        r is Some ==> r->0 == cid_read_len(bytes@),
{
    cid::Cid::try_from(bytes).ok().map(|c| c.encoded_len())
}

/// Relies on `cid::Cid::try_from(&[u8])` and on the `Debug` impl of `cid::Cid`,
/// which writes `Cid(` and the multibase text of the identifier and `)`.
#[verifier::external_body]
fn debug_text_of_cid(bytes: &[u8]) -> (r: String)
    requires
        cid_parses(bytes@),
    ensures
        r@ == cid_debug_text(bytes@),
{
    match cid::Cid::try_from(bytes) {
        Ok(c) => format!("{:?}", c),
        Err(_) => String::new(),
    }
}

/// The bytes are the binary form of one identifier, and nothing more.
pub open spec fn is_cid_form(bytes: Seq<u8>) -> bool {
    cid_parses(bytes) && cid_read_len(bytes) == bytes.len()
}

/// A content identifier, held in its binary form.
#[derive(Debug)]
pub struct ContentId {
    bytes: Vec<u8>,
}

impl View for ContentId {
    type V = Seq<u8>;

    closed spec fn view(&self) -> Seq<u8> {
        self.bytes@
    }
}

/// Whether two byte strings are equal, compared byte by byte.
fn bytes_equal(a: &Vec<u8>, b: &Vec<u8>) -> (r: bool)
    ensures
        r == (a@ == b@),
{
    if a.len() != b.len() {
        return false;
    }
    let mut i: usize = 0;
    while i < a.len()
        invariant
            a@.len() == b@.len(),
            0 <= i <= a@.len(),
            forall|j: int| 0 <= j < i ==> a@[j] == b@[j],
        decreases a@.len() - i,
    {
        if a[i] != b[i] {
            return false;
        }
        i = i + 1;
    }
    assert(a@ =~= b@);
    true
}

/// A fresh copy of a byte string.
fn copy_bytes(a: &Vec<u8>) -> (r: Vec<u8>)
    ensures
        r@ == a@,
{
    let mut r: Vec<u8> = Vec::new();
    let mut i: usize = 0;
    while i < a.len()
        invariant
            0 <= i <= a@.len(),
            r@ == a@.subrange(0, i as int),
        decreases a@.len() - i,
    {
        r.push(a[i]);
        i = i + 1;
        assert(r@ =~= a@.subrange(0, i as int));
    }
    assert(r@ =~= a@);
    r
}

impl ContentId {
    #[verifier::type_invariant]
    spec fn well_formed(&self) -> bool {
        is_cid_form(self.bytes@)
    }

    /// The identifier whose binary form is `bytes`, or `None` where they are
    /// not one: where they do not read as one, or hold more after it.
    pub fn from_bytes(bytes: Vec<u8>) -> (r: Option<ContentId>)
        ensures
            r is Some <==> is_cid_form(bytes@),
            r is Some ==> r->0@ == bytes@,
    {
        match read_cid_len(bytes.as_slice()) {
            Some(n) => {
                if n == bytes.len() {
                    Some(ContentId { bytes })
                } else {
                    None
                }
            },
            None => None,
        }
    }

    /// The binary form of the identifier.
    pub fn to_bytes(&self) -> (r: Vec<u8>)
        ensures
            r@ == self@,
    {
        copy_bytes(&self.bytes)
    }

    /// A copy of the identifier.
    pub fn duplicate(&self) -> (r: ContentId)
        ensures
            r@ == self@,
    {
        proof {
            use_type_invariant(self);
        }
        ContentId { bytes: copy_bytes(&self.bytes) }
    }

    /// Whether two identifiers have the same binary form.
    pub fn same_as(&self, other: &ContentId) -> (r: bool)
        ensures
            r == (self@ == other@),
    {
        bytes_equal(&self.bytes, &other.bytes)
    }

    /// The debug text of the identifier, as the `cid` crate writes it.
    pub fn debug_text(&self) -> (r: String)
        ensures
            r@ == cid_debug_text(self@),
    {
        proof {
            use_type_invariant(self);
        }
        debug_text_of_cid(self.bytes.as_slice())
    }
}

impl PartialEq for ContentId {
    fn eq(&self, other: &ContentId) -> (r: bool) {
        self.same_as(other)
    }
}

impl vstd::std_specs::cmp::PartialEqSpecImpl for ContentId {
    open spec fn obeys_eq_spec() -> bool {
        true
    }

    open spec fn eq_spec(&self, other: &ContentId) -> bool {
        self@ == other@
    }
}

impl Eq for ContentId {

}

/// Whether a message payload reads as a content identifier.
pub fn payload_is_cid(data: &Vec<u8>) -> (r: bool)
    ensures
        r == cid_parses(data@),
{
    read_cid_len(data.as_slice()).is_some()
}

} // verus!
