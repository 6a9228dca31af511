//! Reading an application descriptor: a sectioned key-value document whose
//! `Desktop Entry` section names the application, its icon and its command.

use crate::apps::text::text_of;
use freedesktop_entry_parser::Entry as Document;
use freedesktop_entry_parser::ParseError;
use vstd::prelude::*;

verus! {

/// A parsed key-value document of `freedesktop_entry_parser`. Its contents are
/// reached through [`document_attrs`] only.
#[verifier::external_type_specification]
#[verifier::external_body]
pub struct ExDocument(Document);

/// The parser's error of `freedesktop_entry_parser`.
#[verifier::external_type_specification]
#[verifier::external_body]
pub struct ExParseError(ParseError);

/// What a parsed document holds: the value of each plain attribute (one
/// without a `[param]`), found by section title and attribute name.
pub uninterp spec fn document_attrs(doc: Document) -> Map<(Seq<char>, Seq<char>), Seq<char>>;

/// What `freedesktop_entry_parser` makes of a document's bytes: its plain
/// attributes where the bytes parse, nothing where they do not.
pub uninterp spec fn parsed_attrs(bytes: Seq<u8>) -> Option<
    Map<(Seq<char>, Seq<char>), Seq<char>>,
>;

/// Calls `Entry::parse` of `freedesktop_entry_parser`. The outcome depends on
/// the bytes alone: it is the document that [`parsed_attrs`] names, or the
/// parser's error where that is `None`.
#[verifier::external_body]
fn parse_document(bytes: &[u8]) -> (parsed: Result<Document, ParseError>)
    ensures
        parsed matches Ok(doc) ==> parsed_attrs(bytes@) == Some(document_attrs(doc)),
        parsed is Err ==> parsed_attrs(bytes@) is None,
{
    Document::parse(bytes)
}

/// Calls `Entry::section` and then `AttrSelector::attr` of
/// `freedesktop_entry_parser`: the value of the plain attribute `key` in the
/// section `section`, copied out, or `None` where the document has no such
/// section or the section no such attribute.
#[verifier::external_body]
fn document_attr(doc: &Document, section: &str, key: &str) -> (value: Option<String>)
    ensures
        value is Some <==> document_attrs(*doc).contains_key((section@, key@)),
        value matches Some(v) ==> v@ == document_attrs(*doc)[(section@, key@)],
{
    doc.section(section).attr(key).map(String::from)
}

/// The attribute `key` of the section `section`, where there is one.
pub open spec fn attr_of(
    attrs: Map<(Seq<char>, Seq<char>), Seq<char>>,
    section: Seq<char>,
    key: Seq<char>,
) -> Option<Seq<char>> {
    if attrs.contains_key((section, key)) {
        Some(attrs[(section, key)])
    } else {
        None
    }
}

/// The attributes of a descriptor that the catalogue reads. Each is optional:
/// a descriptor may leave any of them out.
#[derive(Debug, Clone, PartialEq, Eq)]
pub struct Descriptor {
    /// `NoDisplay`: the text `true` hides the application.
    pub no_display: Option<String>,
    /// `Name`: the application's name.
    pub name: Option<String>,
    /// `Icon`: an icon name, or the path of an image.
    pub icon: Option<String>,
    /// `Exec`: the command line.
    pub command: Option<String>,
    /// `StartupWMClass`: the window-class hint.
    pub startup_wm_class: Option<String>,
    /// `Terminal`: the text `true` asks for a terminal.
    pub terminal: Option<String>,
}

/// The attributes of a descriptor as texts.
pub struct DescriptorView {
    pub no_display: Option<Seq<char>>,
    pub name: Option<Seq<char>>,
    pub icon: Option<Seq<char>>,
    pub command: Option<Seq<char>>,
    pub startup_wm_class: Option<Seq<char>>,
    pub terminal: Option<Seq<char>>,
}

impl View for Descriptor {
    type V = DescriptorView;

    open spec fn view(&self) -> DescriptorView {
        DescriptorView {
            no_display: text_of(self.no_display),
            name: text_of(self.name),
            icon: text_of(self.icon),
            command: text_of(self.command),
            startup_wm_class: text_of(self.startup_wm_class),
            terminal: text_of(self.terminal),
        }
    }
}

/// Why a descriptor could not be read.
#[derive(Debug, Clone, Copy, PartialEq, Eq, Structural)]
pub enum DescriptorError {
    /// The bytes are no well-formed key-value document.
    Malformed,
}

/// The title of the section that describes the application.
pub open spec fn main_section() -> Seq<char> {
    "Desktop Entry"@
}

/// The descriptor that a document with the attributes `attrs` amounts to:
/// six attributes of its main section, each present or not.
pub open spec fn descriptor_of(attrs: Map<(Seq<char>, Seq<char>), Seq<char>>) -> DescriptorView {
    DescriptorView {
        no_display: attr_of(attrs, main_section(), "NoDisplay"@),
        name: attr_of(attrs, main_section(), "Name"@),
        icon: attr_of(attrs, main_section(), "Icon"@),
        command: attr_of(attrs, main_section(), "Exec"@),
        startup_wm_class: attr_of(attrs, main_section(), "StartupWMClass"@),
        terminal: attr_of(attrs, main_section(), "Terminal"@),
    }
}

/// What reading `bytes` as a descriptor gives.
pub open spec fn read_result(bytes: Seq<u8>) -> Result<DescriptorView, DescriptorError> {
    match parsed_attrs(bytes) {
        Some(attrs) => Ok(descriptor_of(attrs)),
        None => Err(DescriptorError::Malformed),
    }
}

/// The view of what a reading gave.
pub open spec fn read_text(
    read: Result<Descriptor, DescriptorError>,
) -> Result<DescriptorView, DescriptorError> {
    match read {
        Ok(descriptor) => Ok(descriptor@),
        Err(e) => Err(e),
    }
}

/// One attribute of the main section of a parsed document.
fn main_attr(doc: &Document, key: &str) -> (value: Option<String>)
    ensures
        text_of(value) == attr_of(document_attrs(*doc), main_section(), key@),
{
    document_attr(doc, "Desktop Entry", key)
}

impl Descriptor {
    /// Reads the bytes of a descriptor file. Bytes that do not parse give
    /// `Malformed`; bytes that do give the six attributes, whatever they hold:
    /// a missing attribute is no error here.
    pub fn read(bytes: &[u8]) -> (read: Result<Descriptor, DescriptorError>)
        ensures
            read_text(read) == read_result(bytes@),
            read is Ok <==> parsed_attrs(bytes@) is Some,
    {
        match parse_document(bytes) {
            Ok(doc) => {
                let no_display = main_attr(&doc, "NoDisplay");
                let name = main_attr(&doc, "Name");
                let icon = main_attr(&doc, "Icon");
                let command = main_attr(&doc, "Exec");
                let startup_wm_class = main_attr(&doc, "StartupWMClass");
                let terminal = main_attr(&doc, "Terminal");
                Ok(Descriptor { no_display, name, icon, command, startup_wm_class, terminal })
            },
            Err(_) => Err(DescriptorError::Malformed),
        }
    }
}

/// What reading a list of files gave.
#[derive(Debug, Clone, PartialEq, Eq)]
pub struct Readings {
    /// The descriptors of the files that parse, in the files' order.
    pub descriptors: Vec<Descriptor>,
    /// The places in the list of the files that do not parse, ascending.
    pub malformed: Vec<usize>,
}

/// The views of a list of descriptors, in order.
pub open spec fn descriptor_views(descriptors: Seq<Descriptor>) -> Seq<DescriptorView> {
    descriptors.map_values(|d: Descriptor| d@)
}

/// The contents of a list of files, in order.
pub open spec fn file_bytes(files: Seq<Vec<u8>>) -> Seq<Seq<u8>> {
    files.map_values(|file: Vec<u8>| file@)
}

/// The descriptors of the files that parse, in the files' order. A file that
/// does not parse is passed over and the rest goes on.
pub open spec fn readable(files: Seq<Seq<u8>>) -> Seq<DescriptorView>
    decreases files.len(),
{
    if files.len() == 0 {
        Seq::empty()
    } else {
        match read_result(files.last()) {
            Ok(descriptor) => readable(files.drop_last()).push(descriptor),
            Err(_) => readable(files.drop_last()),
        }
    }
}

/// The places of the files that do not parse, ascending.
pub open spec fn unreadable(files: Seq<Seq<u8>>) -> Seq<usize>
    decreases files.len(),
{
    if files.len() == 0 {
        Seq::empty()
    } else {
        match read_result(files.last()) {
            Ok(_) => unreadable(files.drop_last()),
            Err(_) => unreadable(files.drop_last()).push((files.len() - 1) as usize),
        }
    }
}

/// Every file is either read or reported, none both.
pub proof fn lemma_every_file_is_accounted_for(files: Seq<Seq<u8>>)
    ensures
        readable(files).len() + unreadable(files).len() == files.len(),
    decreases files.len(),
{
    if files.len() > 0 {
        lemma_every_file_is_accounted_for(files.drop_last());
    }
}

/// Reads the contents of descriptor files. A file that does not parse is
/// left out and its place reported; it does not stop the others.
pub fn read_descriptors(files: &Vec<Vec<u8>>) -> (readings: Readings)
    ensures
        descriptor_views(readings.descriptors@) == readable(file_bytes(files@)),
        readings.malformed@ == unreadable(file_bytes(files@)),
{
    let ghost all = file_bytes(files@);
    let mut descriptors: Vec<Descriptor> = Vec::new();
    let mut malformed: Vec<usize> = Vec::new();
    let mut i: usize = 0;
    assert(descriptor_views(descriptors@) =~= Seq::empty());
    while i < files.len()
        invariant
            i <= files.len(),
            all == file_bytes(files@),
            descriptor_views(descriptors@) == readable(all.take(i as int)),
            malformed@ == unreadable(all.take(i as int)),
        decreases files.len() - i,
    {
        proof {
            assert(all.take(i + 1).drop_last() =~= all.take(i as int));
            assert(all.take(i + 1).last() == files@[i as int]@);
        }
        match Descriptor::read(files[i].as_slice()) {
            Ok(descriptor) => {
                let ghost before = descriptors@;
                descriptors.push(descriptor);
                assert(descriptor_views(descriptors@) =~= descriptor_views(before).push(
                    descriptor@,
                ));
            },
            Err(_) => {
                malformed.push(i);
            },
        }
        i = i + 1;
    }
    assert(all.take(i as int) =~= all);
    Readings { descriptors, malformed }
}

} // verus!
