use vstd::prelude::*;

verus! {

/// What a parsed transport packet tells of the document it carries.
#[derive(Debug, Clone)]
pub struct PacketDocument {
    pub organization: Option<String>,
    pub source_uid: Option<String>,
    pub document_type: Option<String>,
    pub document_uid: Option<String>,
    /// the date and the number of the document, when the packet has them
    pub document_date: Option<String>,
    pub document_number: Option<String>,
    pub source_addressee: Option<String>,
}

/// The document of a new packet, as it is announced to the clients.
#[derive(Debug, Clone)]
pub struct NewDocument {
    pub organization: Option<String>,
    pub organization_uid: Option<String>,
    pub doc_type: Option<String>,
    pub doc_uid: Option<String>,
    pub number: Option<String>,
    pub sign_date: Option<String>,
    pub source_medo_addressee: Option<String>,
}

/// A packet seen as the document it carries.
pub trait AsNewdoc<I, O> {
    fn as_doc(self) -> O;
}

impl<'a> AsNewdoc<PacketDocument, NewDocument> for &'a PacketDocument {
    fn as_doc(self) -> (d: NewDocument)
        ensures
            d.organization == self.organization,
            d.organization_uid == self.source_uid,
            d.doc_type == self.document_type,
            d.doc_uid == self.document_uid,
            d.number == self.document_number,
            d.sign_date == self.document_date,
            d.source_medo_addressee == self.source_addressee,
    {
        NewDocument {
            organization: self.organization.clone(),
            organization_uid: self.source_uid.clone(),
            doc_type: self.document_type.clone(),
            doc_uid: self.document_uid.clone(),
            number: self.document_number.clone(),
            sign_date: self.document_date.clone(),
            source_medo_addressee: self.source_addressee.clone(),
        }
    }
}

} // verus!
