//! Annotation of documents whose address stands on a list.
//!
//! A list has a kind, a set of domains and a set of addresses. A document
//! whose address is found on the list gets the kind of the list as its
//! annotation.

use crate::record::{find_header, header_value, Header, RawRecord};
use crate::text::{lossy_text, utf8_lossy};
use url::Url;
use ut1_blocklist::Blocklist;
use vstd::prelude::*;

verus! {

/// `ut1_blocklist::Blocklist`: a kind, a set of domains and a set of addresses.
#[verifier::external_type_specification]
#[verifier::external_body]
pub struct ExBlocklist(Blocklist);

/// `url::Url`: an address that was parsed.
#[verifier::external_type_specification]
#[verifier::external_body]
pub struct ExUrl(Url);

/// The kind that `list` was made with.
pub uninterp spec fn blocklist_kind(list: Blocklist) -> Seq<char>;

/// The domains that `list` holds.
pub uninterp spec fn blocklist_domains(list: Blocklist) -> Set<Seq<char>>;

/// The addresses that `list` holds.
pub uninterp spec fn blocklist_urls(list: Blocklist) -> Set<Seq<char>>;

/// The characters that `url` holds: its serialisation, which `Url::as_str`
/// gives and by which two addresses are the same or not.
pub uninterp spec fn url_text(url: Url) -> Seq<char>;

/// What `Url::parse` makes of `text`: the serialisation of the address, or
/// nothing where `text` is no absolute address.
pub uninterp spec fn parsed_address(text: Seq<char>) -> Option<Seq<char>>;

/// The host that `Url::host_str` gives for the address that is serialised as
/// `address`, if the address has one.
pub uninterp spec fn host_in(address: Seq<char>) -> Option<Seq<char>>;

/// The part from before the host to after the path of the address that is
/// serialised as `address`.
pub uninterp spec fn location_in(address: Seq<char>) -> Seq<char>;

/// The set of the values of `texts`.
pub open spec fn text_set(texts: Seq<String>) -> Set<Seq<char>> {
    Set::new(|text: Seq<char>| exists|i: int| 0 <= i < texts.len() && #[trigger] texts[i]@ == text)
}

/// `Blocklist::new`: the list of kind `kind` that holds `domains` and `urls`.
#[verifier::external_body]
fn new_blocklist(kind: String, domains: Vec<String>, urls: Vec<String>) -> (list: Blocklist)
    ensures
        blocklist_kind(list) == kind@,
        blocklist_domains(list) == text_set(domains@),
        blocklist_urls(list) == text_set(urls@),
{
    Blocklist::new(kind, domains.into_iter().collect(), urls.into_iter().collect())
}

/// `Blocklist::kind`: the kind of the list.
#[verifier::external_body]
fn kind_of(list: &Blocklist) -> (kind: String)
    ensures
        kind@ == blocklist_kind(*list),
{
    list.kind().to_string()
}

/// `Blocklist::detect_domain`: whether `url` has a host, as `Url::host_str`
/// gives it, and the list holds that host among its domains.
#[verifier::external_body]
fn detect_domain(list: &Blocklist, url: &Url) -> (listed: bool)
    ensures
        listed == (host_in(url_text(*url)) is Some && blocklist_domains(*list).contains(
            host_in(url_text(*url))->Some_0,
        )),
{
    list.detect_domain(url)
}

/// `Blocklist::detect_url`: whether the list holds, among its addresses, the
/// part of `url` from before its host to after its path.
#[verifier::external_body]
fn detect_url(list: &Blocklist, url: &Url) -> (listed: bool)
    ensures
        listed == blocklist_urls(*list).contains(location_in(url_text(*url))),
{
    list.detect_url(url)
}

/// `Url::parse`: the address that `text` gives, if it is an absolute address.
#[verifier::external_body]
fn parse_address(text: &str) -> (url: Option<Url>)
    ensures
        url is Some <==> parsed_address(text@) is Some,
        url is Some ==> url_text(url->Some_0) == parsed_address(text@)->Some_0,
{
    Url::parse(text).ok()
}

/// Whether `address` has a host that stands among the domains of `list`.
pub open spec fn domain_listed(list: Blocklist, address: Seq<char>) -> bool {
    host_in(address) is Some && blocklist_domains(list).contains(host_in(address)->Some_0)
}

/// Whether `address`, from its host to the end of its path, stands among the
/// addresses of `list`.
pub open spec fn url_listed(list: Blocklist, address: Seq<char>) -> bool {
    blocklist_urls(list).contains(location_in(address))
}

/// Whether `address` stands on `list`, by its host or from its host to the
/// end of its path.
pub open spec fn listed(list: Blocklist, address: Seq<char>) -> bool {
    domain_listed(list, address) || url_listed(list, address)
}

/// The name of the header that holds the address of a record.
pub const TARGET_URI: &'static str = "WARC-Target-URI";

/// The address that `headers` give, as it is serialised: that of the first
/// header named [`TARGET_URI`], read as text and parsed. Nothing where there
/// is no such header or its value is no absolute address.
pub open spec fn address_of(headers: Seq<Header>) -> Option<Seq<char>> {
    match header_value(headers, TARGET_URI@) {
        Some(value) => parsed_address(lossy_text(value)),
        None => None,
    }
}

/// What describes a document beside its text.
#[derive(Debug, Clone, PartialEq, Eq)]
pub struct Metadata {
    /// The language of the document as a whole.
    pub identification: String,
    /// The kind of list that the address of the document stands on.
    pub annotation: Option<String>,
    /// The language of each line of the document, where one was found.
    pub sentence_identifications: Vec<Option<String>>,
}

/// A document: its text, the headers of the record that it came in, and what
/// was found out about it.
#[derive(Debug, Clone, PartialEq, Eq)]
pub struct Document {
    pub content: String,
    pub warc_headers: Vec<Header>,
    pub metadata: Metadata,
}

/// The annotation of `doc`, as characters.
pub open spec fn annotation_of(doc: Document) -> Option<Seq<char>> {
    match doc.metadata.annotation {
        Some(kind) => Some(kind@),
        None => None,
    }
}

/// Whether `after` is `before` but for its annotation.
pub open spec fn same_but_annotation(before: Document, after: Document) -> bool {
    &&& after.content == before.content
    &&& after.warc_headers == before.warc_headers
    &&& after.metadata.identification == before.metadata.identification
    &&& after.metadata.sentence_identifications == before.metadata.sentence_identifications
}

/// Annotates documents by one list.
pub struct ContentDetector {
    bl: Blocklist,
}

impl View for ContentDetector {
    type V = Blocklist;

    closed spec fn view(&self) -> Blocklist {
        self.bl
    }
}

impl ContentDetector {
    /// A detector that goes by `bl`.
    pub fn new(bl: Blocklist) -> (detector: ContentDetector)
        ensures
            detector@ == bl,
    {
        ContentDetector { bl }
    }

    /// A detector that goes by a list of kind `kind` with the domains
    /// `domains` and the addresses `urls`.
    pub fn with_lists(kind: String, domains: Vec<String>, urls: Vec<String>) -> (detector:
        ContentDetector)
        ensures
            blocklist_kind(detector@) == kind@,
            blocklist_domains(detector@) == text_set(domains@),
            blocklist_urls(detector@) == text_set(urls@),
    {
        ContentDetector { bl: new_blocklist(kind, domains, urls) }
    }

    /// The address of a document, if its headers give one.
    fn parse_url(doc: &Document) -> (url: Option<Url>)
        ensures
            url is Some <==> address_of(doc.warc_headers@) is Some,
            url is Some ==> url_text(url->Some_0) == address_of(doc.warc_headers@)->Some_0,
    {
        match find_header(&doc.warc_headers, TARGET_URI) {
            Some(value) => parse_address(utf8_lossy(value).as_str()),
            None => None,
        }
    }

    /// Annotates `doc` with the kind of the list where the host of its
    /// address stands among the domains of the list, and leaves it as it is
    /// where it does not. The address has to be there: see
    /// [`Self::try_transform`].
    pub fn transform(&self, doc: &mut Document)
        requires
            address_of(old(doc).warc_headers@) is Some,
        ensures
            same_but_annotation(*old(doc), *final(doc)),
            annotation_of(*final(doc)) == if domain_listed(
                self@,
                address_of(old(doc).warc_headers@)->Some_0,
            ) {
                Some(blocklist_kind(self@))
            } else {
                annotation_of(*old(doc))
            },
    {
        let url = Self::parse_url(doc).unwrap();
        if detect_domain(&self.bl, &url) {
            doc.metadata.annotation = Some(kind_of(&self.bl));
        }
    }

    /// [`Self::transform`], where the headers of `doc` give an address; where
    /// they give none, `doc` stays as it is. Says whether there was an address.
    pub fn try_transform(&self, doc: &mut Document) -> (done: bool)
        ensures
            done == address_of(old(doc).warc_headers@) is Some,
            same_but_annotation(*old(doc), *final(doc)),
            annotation_of(*final(doc)) == if done && domain_listed(
                self@,
                address_of(old(doc).warc_headers@)->Some_0,
            ) {
                Some(blocklist_kind(self@))
            } else {
                annotation_of(*old(doc))
            },
    {
        if Self::parse_url(doc).is_some() {
            self.transform(doc);
            true
        } else {
            false
        }
    }

    /// The annotation for `record`: the kind of the list where the address of
    /// the record, from its host to the end of its path, stands among the
    /// addresses of the list; nothing where it does not, or where the record
    /// has no address header. An address header has to hold an address: see
    /// [`Self::try_get_annotation`].
    pub fn get_annotation(&self, record: &RawRecord) -> (annotation: Option<String>)
        requires
            header_value(record.headers@, TARGET_URI@) is Some ==> address_of(record.headers@)
                is Some,
        ensures
            annotation is Some <==> address_of(record.headers@) is Some && url_listed(
                self@,
                address_of(record.headers@)->Some_0,
            ),
            annotation is Some ==> annotation->Some_0@ == blocklist_kind(self@),
    {
        match find_header(&record.headers, TARGET_URI) {
            Some(value) => {
                let url = parse_address(utf8_lossy(value).as_str()).unwrap();
                if detect_url(&self.bl, &url) {
                    Some(kind_of(&self.bl))
                } else {
                    None
                }
            },
            None => None,
        }
    }

    /// [`Self::get_annotation`], where the address header of `record` holds an
    /// address or is not there; nothing at all where it holds something else.
    pub fn try_get_annotation(&self, record: &RawRecord) -> (outcome: Option<Option<String>>)
        ensures
            outcome is None <==> header_value(record.headers@, TARGET_URI@) is Some && address_of(
                record.headers@,
            ) is None,
            outcome is Some ==> (outcome->Some_0 is Some <==> address_of(record.headers@) is Some
                && url_listed(self@, address_of(record.headers@)->Some_0)),
            outcome is Some && outcome->Some_0 is Some ==> outcome->Some_0->Some_0@
                == blocklist_kind(self@),
    {
        let readable = match find_header(&record.headers, TARGET_URI) {
            Some(value) => parse_address(utf8_lossy(value).as_str()).is_some(),
            None => true,
        };
        if readable {
            Some(self.get_annotation(record))
        } else {
            None
        }
    }

    /// `doc`, annotated with the kind of the list where its address stands on
    /// the list, by its host or from its host to the end of its path; `doc` as
    /// it is where it does not, or where its headers give no address.
    pub fn transform_own(&self, doc: Document) -> (out: Document)
        ensures
            same_but_annotation(doc, out),
            annotation_of(out) == if address_of(doc.warc_headers@) is Some && (domain_listed(
                self@,
                address_of(doc.warc_headers@)->Some_0,
            ) || url_listed(self@, address_of(doc.warc_headers@)->Some_0)) {
                Some(blocklist_kind(self@))
            } else {
                annotation_of(doc)
            },
    {
        let mut doc = doc;
        let url = Self::parse_url(&doc);
        if let Some(valid_url) = url {
            if detect_domain(&self.bl, &valid_url) || detect_url(&self.bl, &valid_url) {
                doc.metadata.annotation = Some(kind_of(&self.bl));
            }
        }
        doc
    }
}

/// The annotation for `doc` where several lists are asked in turn: the kind
/// of the first list of `detectors` that the address of `doc` stands on.
/// Nothing where it stands on none, or where the headers of `doc` give no
/// address.
pub fn first_annotation(detectors: &Vec<ContentDetector>, doc: &Document) -> (annotation: Option<
    String,
>)
    ensures
        annotation is Some <==> address_of(doc.warc_headers@) is Some && exists|i: int|
            0 <= i < detectors.len() && listed(
                (#[trigger] detectors[i])@,
                address_of(doc.warc_headers@)->Some_0,
            ),
        annotation is Some ==> exists|i: int|
            {
                &&& 0 <= i < detectors.len()
                &&& listed((#[trigger] detectors[i])@, address_of(doc.warc_headers@)->Some_0)
                &&& forall|j: int|
                    0 <= j < i ==> !listed(
                        (#[trigger] detectors[j])@,
                        address_of(doc.warc_headers@)->Some_0,
                    )
                &&& annotation->Some_0@ == blocklist_kind(detectors[i]@)
            },
{
    match ContentDetector::parse_url(doc) {
        None => None,
        Some(url) => {
            let mut i: usize = 0;
            while i < detectors.len()
                invariant
                    i <= detectors.len(),
                    address_of(doc.warc_headers@) == Some(url_text(url)),
                    forall|j: int|
                        0 <= j < i ==> !listed((#[trigger] detectors[j])@, url_text(url)),
                decreases detectors.len() - i,
            {
                let list = &detectors[i].bl;
                if detect_domain(list, &url) || detect_url(list, &url) {
                    return Some(kind_of(list));
                }
                i = i + 1;
            }
            None
        },
    }
}

} // verus!
