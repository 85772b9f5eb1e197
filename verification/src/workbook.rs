//! The workbook: its container, its sheets, and the way to their rows.

use crate::csv::{is_run, written, CsvSink};
use crate::model::DateSystem;
use crate::number::bounded_number;
use crate::parts::{all_relationships_given, date_system, date_system_of, entry_views,
    find_last, lookup_last, relationships, relationships_of, shared_strings, shared_strings_of,
    styles, styles_of, text_views, Entry};
use crate::sheet::{number_in, RowIter, SheetError, SheetReader};
use crate::value::same_text;
use crate::xml::{attribute_of, events_in, first_fault, get, next_event, pending, read_events,
    XmlEvent, XmlReader};
use std::io::{Cursor, Read};
use vstd::prelude::*;
use vstd::string::StringExecFns;
use zip::result::ZipError;
use zip::ZipArchive;

verus! {

#[verifier::external_type_specification]
#[verifier::external_body]
#[verifier::reject_recursive_types(T)]
pub struct ExCursor<T>(Cursor<T>);

#[verifier::external_type_specification]
#[verifier::external_body]
#[verifier::reject_recursive_types(R)]
pub struct ExZipArchive<R>(ZipArchive<R>);

/// Why a member of the container could not be had.
#[derive(Clone, Copy, Debug, PartialEq, Eq, Structural)]
pub enum MemberError {
    /// The container has no member of that name.
    Missing,
    /// The member is there and cannot be read.
    Broken,
}

/// Why a workbook could not be opened, or its sheets not listed.
#[derive(Clone, Copy, Debug, PartialEq, Eq, Structural)]
pub enum WorkbookError {
    /// The bytes are no container.
    NotAnArchive,
    /// A member of the container cannot be read.
    Member,
    /// A part is not well-formed XML; the byte at which that showed.
    Xml(usize),
    /// The workbook part names a sheet that has no relationship, or more
    /// sheets than 255.
    Structure,
}

/// The members of the container, by their names: the bytes of each,
/// unpacked, or nothing for a member that cannot be read.
pub uninterp spec fn members(archive: ZipArchive<Cursor<Vec<u8>>>) -> Map<
    Seq<char>,
    Option<Seq<u8>>,
>;

/// The members of the container that the bytes hold; none where the bytes
/// are no container.
pub uninterp spec fn container_members(bytes: Seq<u8>) -> Option<
    Map<Seq<char>, Option<Seq<u8>>>,
>;

/// The container has no member called `name`.
pub open spec fn is_missing(m: Map<Seq<char>, Option<Seq<u8>>>, name: Seq<char>) -> bool {
    !m.contains_key(name)
}

/// The container has a member called `name` that cannot be read.
pub open spec fn is_broken(m: Map<Seq<char>, Option<Seq<u8>>>, name: Seq<char>) -> bool {
    m.contains_key(name) && m[name] is None
}

/// The bytes of the member called `name`, where the container has one that
/// can be read.
pub open spec fn part_bytes(m: Map<Seq<char>, Option<Seq<u8>>>, name: Seq<char>) -> Option<
    Seq<u8>,
> {
    if m.contains_key(name) {
        m[name]
    } else {
        None
    }
}

/// The name `name` is one of `names`.
pub open spec fn lists(names: Seq<String>, name: Seq<char>) -> bool {
    exists|i: int| 0 <= i < names.len() && (#[trigger] names[i])@ == name
}

/// No name stands twice in `names`.
pub open spec fn no_name_twice(names: Seq<String>) -> bool {
    forall|i: int, j: int|
        0 <= i < j < names.len() ==> (#[trigger] names[i])@ != (#[trigger] names[j])@
}

/// `ZipArchive::new` of the zip crate, over the bytes in memory: the
/// container with the members that the bytes hold, or nothing where the
/// bytes are no container.
#[verifier::external_body]
fn open_archive(bytes: Vec<u8>) -> (r: Option<ZipArchive<Cursor<Vec<u8>>>>)
    ensures
        r is Some <==> container_members(bytes@) is Some,
        r matches Some(archive) ==> container_members(bytes@) == Some(members(archive)),
{
    ZipArchive::new(Cursor::new(bytes)).ok()
}

/// `ZipArchive::by_name_decrypt` of the zip crate, with an empty password,
/// and `Read::read_to_end` on the member it finds: the bytes of the member
/// called `name`, unpacked. The member is missing where the container has
/// none of that name, and broken where it has one that cannot be read. The
/// container keeps its members.
#[verifier::external_body]
fn read_member(archive: &mut ZipArchive<Cursor<Vec<u8>>>, name: &str) -> (r: Result<
    Vec<u8>,
    MemberError,
>)
    ensures
        members(*final(archive)) == members(*old(archive)),
        r matches Ok(bytes) ==> part_bytes(members(*old(archive)), name@) == Some(bytes@),
        r is Ok <==> part_bytes(members(*old(archive)), name@) is Some,
        r == Err::<Vec<u8>, MemberError>(MemberError::Missing) <==> is_missing(
            members(*old(archive)),
            name@,
        ),
{
    let mut bytes = Vec::new();
    match archive.by_name_decrypt(name, &[]) {
        Ok(Ok(mut file)) => match file.read_to_end(&mut bytes) {
            Ok(_) => Ok(bytes),
            Err(_) => Err(MemberError::Broken),
        },
        Err(ZipError::FileNotFound) => Err(MemberError::Missing),
        _ => Err(MemberError::Broken),
    }
}

/// `ZipArchive::file_names` of the zip crate: the names of the members,
/// each once, in no order that can be told.
#[verifier::external_body]
fn member_names(archive: &ZipArchive<Cursor<Vec<u8>>>) -> (r: Vec<String>)
    ensures
        forall|name: Seq<char>| #[trigger] members(*archive).contains_key(name) <==> lists(r@, name),
        no_name_twice(r@),
{
    archive.file_names().map(|name| name.to_string()).collect()
}

/// The Worksheet is the primary object in this module since this is where
/// most of the valuable data is.
#[derive(Clone, Debug, PartialEq, Eq)]
pub struct Worksheet {
    pub name: String,
    pub position: u8,
    pub relationship_id: String,
    /// location where we can find this worksheet in its xlsx file
    pub target: String,
    pub sheet_id: u8,
}

/// What a `Worksheet` holds, its texts as sequences of characters.
pub struct WorksheetView {
    pub name: Seq<char>,
    pub position: u8,
    pub relationship_id: Seq<char>,
    pub target: Seq<char>,
    pub sheet_id: u8,
}

impl View for Worksheet {
    type V = WorksheetView;

    open spec fn view(&self) -> WorksheetView {
        WorksheetView {
            name: self.name@,
            position: self.position,
            relationship_id: self.relationship_id@,
            target: self.target@,
            sheet_id: self.sheet_id,
        }
    }
}

/// A sheet as the workbook part lists it.
pub struct SheetEntry {
    pub name: Seq<char>,
    pub relationship_id: Seq<char>,
    pub sheet_id: u8,
}

/// The number that the attribute `sheetId` writes, where it writes one up
/// to 255.
pub open spec fn sheet_id_of(value: Option<Seq<char>>) -> Option<u8> {
    match value {
        Some(v) => match bounded_number(v, 255) {
            Some(k) => Some(k as u8),
            None => None,
        },
        None => None,
    }
}

/// The event lists a sheet: `<sheet .../>`.
pub open spec fn is_sheet(event: XmlEvent) -> bool {
    event matches XmlEvent::Empty(e) && e.name@ == "sheet"@
}

/// The sheet that the event lists, if it lists one in full:
/// `<sheet name=".." sheetId=".." r:id=".."/>`, with a number up to 255 for
/// its `sheetId`.
pub open spec fn sheet_entry_of(event: XmlEvent) -> Option<SheetEntry> {
    match event {
        XmlEvent::Empty(e) => if e.name@ == "sheet"@ {
            match (
                attribute_of(e.attributes@, "name"@),
                attribute_of(e.attributes@, "r:id"@),
                sheet_id_of(attribute_of(e.attributes@, "sheetId"@)),
            ) {
                (Some(name), Some(relationship_id), Some(sheet_id)) => Some(
                    SheetEntry { name, relationship_id, sheet_id },
                ),
                _ => None,
            }
        } else {
            None
        },
        _ => None,
    }
}

/// Every sheet that the events list has its name, its number and its
/// relationship.
pub open spec fn all_sheets_given(events: Seq<XmlEvent>) -> bool {
    forall|i: int|
        0 <= i < events.len() && is_sheet(#[trigger] events[i]) ==> sheet_entry_of(events[i])
            is Some
}

/// The sheets that the events list, in their order.
pub open spec fn sheet_entries_of(events: Seq<XmlEvent>) -> Seq<SheetEntry>
    decreases events.len(),
{
    if events.len() == 0 {
        Seq::empty()
    } else {
        match sheet_entry_of(events.last()) {
            Some(entry) => sheet_entries_of(events.drop_last()).push(entry),
            None => sheet_entries_of(events.drop_last()),
        }
    }
}

/// The name of the member that a relationship's target stands for: the
/// target without its `/` where it begins with one, and below `xl/` where
/// it does not.
pub open spec fn member_path(target: Seq<char>) -> Seq<char> {
    if target.len() > 0 && target[0] == '/' {
        target.skip(1)
    } else {
        "xl/"@ + target
    }
}

/// The sheet at the place `i` of the list, 0 for the first, with the
/// member that its relationship stands for; none where it has no
/// relationship.
pub open spec fn listed_sheet(
    entries: Seq<SheetEntry>,
    rels: Seq<(Seq<char>, Seq<char>)>,
    i: int,
) -> Option<WorksheetView> {
    match lookup_last(rels, entries[i].relationship_id) {
        Some(target) => Some(
            WorksheetView {
                name: entries[i].name,
                position: (i + 1) as u8,
                relationship_id: entries[i].relationship_id,
                target: member_path(target),
                sheet_id: entries[i].sheet_id,
            },
        ),
        None => None,
    }
}

/// The sheets `sheets` are those of the list `entries`, each at its place
/// and with its member.
pub open spec fn is_catalogue(
    sheets: Seq<Worksheet>,
    entries: Seq<SheetEntry>,
    rels: Seq<(Seq<char>, Seq<char>)>,
) -> bool {
    sheets.len() == entries.len() && forall|i: int|
        0 <= i < sheets.len() ==> Some((#[trigger] sheets[i])@) == listed_sheet(entries, rels, i)
}

/// The list can be made a catalogue: it has no more than 255 sheets, and
/// each has a relationship.
pub open spec fn can_list(entries: Seq<SheetEntry>, rels: Seq<(Seq<char>, Seq<char>)>) -> bool {
    entries.len() <= 255 && forall|i: int|
        0 <= i < entries.len() ==> lookup_last(rels, (#[trigger] entries[i]).relationship_id)
            is Some
}

/// The catalogue of the sheets of a workbook, in the order of the workbook
/// part.
#[derive(Clone, Debug, PartialEq, Eq)]
pub struct SheetMap {
    pub sheets: Vec<Worksheet>,
}

/// The name of the member that a relationship's target stands for.
pub fn resolve_target(target: &str) -> (r: String)
    ensures
        r@ == member_path(target@),
{
    let chars = crate::text::chars_of(target);
    if chars.len() > 0 && chars[0] == '/' {
        crate::text::string_of(&chars, 1, chars.len())
    } else {
        let mut s = String::from_str("xl/");
        s.append(target);
        s
    }
}

impl Worksheet {
    /// Create a new worksheet. Note that this method will probably not be
    /// called directly. Instead, you'll normally get a worksheet from a
    /// `Workbook` object.
    pub fn new(
        relationship_id: String,
        name: String,
        position: u8,
        target: String,
        sheet_id: u8,
    ) -> (r: Self)
        ensures
            r.name == name,
            r.position == position,
            r.relationship_id == relationship_id,
            r.target == target,
            r.sheet_id == sheet_id,
    {
        Worksheet { name, position, relationship_id, target, sheet_id }
    }
}

/// The catalogue of the sheets that the events of the workbook part list,
/// with the members that the relationships `rels` give them. It fails
/// where a sheet lacks its name, its number or its relationship, or names a
/// relationship that is not there, or there are more than 255 sheets.
pub fn catalogue(events: &[XmlEvent], rels: &[Entry]) -> (r: Result<SheetMap, WorkbookError>)
    ensures
        r is Ok <==> all_sheets_given(events@) && can_list(
            sheet_entries_of(events@),
            entry_views(rels@),
        ),
        r is Err ==> r == Err::<SheetMap, WorkbookError>(WorkbookError::Structure),
        r matches Ok(map) ==> is_catalogue(
            map.sheets@,
            sheet_entries_of(events@),
            entry_views(rels@),
        ),
{
    let mut sheets: Vec<Worksheet> = Vec::new();
    let mut i: usize = 0;
    while i < events.len()
        invariant
            i <= events@.len(),
            sheets@.len() <= 255,
            is_catalogue(sheets@, sheet_entries_of(events@.take(i as int)), entry_views(rels@)),
            all_sheets_given(events@.take(i as int)),
        decreases events@.len() - i,
    {
        let ghost before = sheet_entries_of(events@.take(i as int));
        let ghost after = sheet_entries_of(events@.take(i as int + 1));
        proof {
            let t = events@.take(i as int + 1);
            assert(t.drop_last() == events@.take(i as int));
        }
        match &events[i] {
            XmlEvent::Empty(e) => {
                if same_text(e.name.as_str(), "sheet") {
                    proof {
                        lemma_entries_are_a_prefix(events@, i as int + 1);
                    }
                    let sheet_id = match get(&e.attributes, "sheetId") {
                        Some(v) => number_in(v.as_str(), 255),
                        None => None,
                    };
                    let (name, id, sheet_id) = match (
                        get(&e.attributes, "name"),
                        get(&e.attributes, "r:id"),
                        sheet_id,
                    ) {
                        (Some(name), Some(id), Some(k)) => (name.clone(), id.clone(), k as u8),
                        _ => {
                            assert(is_sheet(events@[i as int]));
                            return Err(WorkbookError::Structure);
                        },
                    };
                    if sheets.len() >= 255 {
                        return Err(WorkbookError::Structure);
                    }
                    let target = match find_last(rels, id.as_str()) {
                        Some(t) => resolve_target(t.as_str()),
                        None => {
                            proof {
                                let all = sheet_entries_of(events@);
                                assert(all.take(after.len() as int)[before.len() as int]
                                    == all[before.len() as int]);
                            }
                            return Err(WorkbookError::Structure);
                        },
                    };
                    let position = (sheets.len() + 1) as u8;
                    sheets.push(Worksheet::new(id, name, position, target, sheet_id));
                    assert forall|j: int| 0 <= j < sheets@.len() implies Some(
                        (#[trigger] sheets@[j])@,
                    ) == listed_sheet(after, entry_views(rels@), j) by {}
                }
            },
            _ => {},
        }
        assert forall|j: int|
            0 <= j < i + 1 && is_sheet(#[trigger] events@.take(i as int + 1)[j]) implies sheet_entry_of(
            events@.take(i as int + 1)[j],
        ) is Some by {
            if j < i {
                assert(events@.take(i as int + 1)[j] == events@.take(i as int)[j]);
            }
        }
        i = i + 1;
    }
    assert(events@.take(i as int) == events@);
    proof {
        let entries = sheet_entries_of(events@);
        assert forall|j: int| 0 <= j < entries.len() implies lookup_last(
            entry_views(rels@),
            (#[trigger] entries[j]).relationship_id,
        ) is Some by {
            assert(Some(sheets@[j]@) == listed_sheet(entries, entry_views(rels@), j));
        }
    }
    Ok(SheetMap { sheets })
}

/// The sheets that a part of the events list are the first of those that
/// all the events list.
pub proof fn lemma_entries_are_a_prefix(events: Seq<XmlEvent>, k: int)
    requires
        0 <= k <= events.len(),
    ensures
        sheet_entries_of(events.take(k)).len() <= sheet_entries_of(events).len(),
        sheet_entries_of(events.take(k)) == sheet_entries_of(events).take(
            sheet_entries_of(events.take(k)).len() as int,
        ),
    decreases events.len() - k,
{
    if k == events.len() {
        assert(events.take(k) == events);
    } else {
        lemma_entries_are_a_prefix(events, k + 1);
        let t = events.take(k + 1);
        assert(t.drop_last() == events.take(k));
    }
}

impl SheetMap {
    /// The sheets stand at their positions: the first has position 1.
    pub open spec fn wf(&self) -> bool {
        self.sheets@.len() <= 255 && forall|i: int|
            0 <= i < self.sheets@.len() ==> (#[trigger] self.sheets@[i]).position == i + 1
    }

    /// The number of sheets.
    pub fn len(&self) -> (n: usize)
        ensures
            n == self.sheets@.len(),
    {
        self.sheets.len()
    }

    /// The last sheet with the name `name`, letter for letter.
    pub fn get(&self, name: &str) -> (r: Option<&Worksheet>)
        ensures
            r is None <==> forall|i: int|
                0 <= i < self.sheets@.len() ==> (#[trigger] self.sheets@[i]).name@ != name@,
            r matches Some(sheet) ==> sheet.name@ == name@ && exists|i: int|
                0 <= i < self.sheets@.len() && #[trigger] self.sheets@[i] == *sheet && forall|j: int|
                    i < j < self.sheets@.len() ==> (#[trigger] self.sheets@[j]).name@ != name@,
    {
        let mut i: usize = self.sheets.len();
        while i > 0
            invariant
                i <= self.sheets@.len(),
                forall|j: int|
                    i <= j < self.sheets@.len() ==> (#[trigger] self.sheets@[j]).name@ != name@,
            decreases i,
        {
            i = i - 1;
            if same_text(self.sheets[i].name.as_str(), name) {
                return Some(&self.sheets[i]);
            }
        }
        None
    }

    /// The sheet at the position `position`, 1 for the first.
    pub fn get_by_position(&self, position: usize) -> (r: Option<&Worksheet>)
        ensures
            r is Some <==> 1 <= position <= self.sheets@.len(),
            r matches Some(sheet) ==> *sheet == self.sheets@[position - 1],
    {
        if position >= 1 && position <= self.sheets.len() {
            Some(&self.sheets[position - 1])
        } else {
            None
        }
    }

    /// The names of the sheets, in their order.
    pub fn names(&self) -> (names: Vec<String>)
        ensures
            names@.len() == self.sheets@.len(),
            forall|i: int| 0 <= i < names@.len() ==> (#[trigger] names@[i])@ == self.sheets@[i].name@,
    {
        let mut names: Vec<String> = Vec::new();
        let mut i: usize = 0;
        while i < self.sheets.len()
            invariant
                i <= self.sheets@.len(),
                names@.len() == i,
                forall|j: int| 0 <= j < i ==> (#[trigger] names@[j])@ == self.sheets@[j].name@,
            decreases self.sheets@.len() - i,
        {
            names.push(self.sheets[i].name.clone());
            i = i + 1;
        }
        names
    }
}

/// An open workbook: its container, its shared strings, the format codes
/// of its cell styles, and the day from which it counts its dates.
pub struct Workbook {
    pub xls: ZipArchive<Cursor<Vec<u8>>>,
    pub encoding: String,
    pub date_system: DateSystem,
    pub strings: Vec<String>,
    pub styles: Vec<String>,
}

/// What comes of reading the events of the member called `name` of a
/// container with the members `m`: no events where there is no such member,
/// an error where the member cannot be read or has a malformed event, and
/// else all its events.
pub open spec fn part_read(m: Map<Seq<char>, Option<Seq<u8>>>, name: Seq<char>, trim: bool)
    -> Result<Seq<XmlEvent>, WorkbookError> {
    if is_missing(m, name) {
        Ok(Seq::empty())
    } else if is_broken(m, name) {
        Err(WorkbookError::Member)
    } else {
        match first_fault(events_in(m[name].unwrap(), trim)) {
            Some(at) => Err(WorkbookError::Xml(at)),
            None => Ok(events_in(m[name].unwrap(), trim)),
        }
    }
}

/// The events read, as a sequence; none where no member was there.
pub open spec fn events_found(found: Option<Vec<XmlEvent>>) -> Seq<XmlEvent> {
    match found {
        Some(events) => events@,
        None => Seq::empty(),
    }
}

/// The events of the member `name`, or nothing where the container has no
/// such member.
fn part_events(xls: &mut ZipArchive<Cursor<Vec<u8>>>, name: &str, trim: bool) -> (r: Result<
    Option<Vec<XmlEvent>>,
    WorkbookError,
>)
    ensures
        members(*final(xls)) == members(*old(xls)),
        r matches Ok(None) <==> is_missing(members(*old(xls)), name@),
        match r {
            Ok(found) => part_read(members(*old(xls)), name@, trim) == Ok::<
                Seq<XmlEvent>,
                WorkbookError,
            >(events_found(found)),
            Err(e) => part_read(members(*old(xls)), name@, trim) == Err::<
                Seq<XmlEvent>,
                WorkbookError,
            >(e),
        },
{
    match read_member(xls, name) {
        Ok(bytes) => match read_events(bytes, trim) {
            Ok(events) => Ok(Some(events)),
            Err(at) => Err(WorkbookError::Xml(at)),
        },
        Err(MemberError::Missing) => Ok(None),
        Err(MemberError::Broken) => Err(WorkbookError::Member),
    }
}

/// The workbook `wb` holds what the events of its three parts declare:
/// `strings` its shared strings, `styles` the format codes of its cell
/// styles, and `workbook` its date system.
pub open spec fn holds_parts(
    wb: Workbook,
    strings: Seq<XmlEvent>,
    styles: Seq<XmlEvent>,
    workbook: Seq<XmlEvent>,
) -> bool {
    &&& wb.encoding@ == "utf8"@
    &&& text_views(wb.strings@) == shared_strings_of(strings)
    &&& text_views(wb.styles@) == styles_of(styles)
    &&& wb.date_system == date_system_of(workbook)
}

/// What comes of opening a workbook in a container with the members `m`.
/// The shared strings are read first, then the styles, then the workbook
/// part. The first part that cannot be read or has a malformed event fails
/// the opening with its error. Else the workbook holds what the events of
/// the three parts declare, and a part that is not there declares nothing.
pub open spec fn opened(m: Map<Seq<char>, Option<Seq<u8>>>, r: Result<Workbook, WorkbookError>)
    -> bool {
    match part_read(m, "xl/sharedStrings.xml"@, false) {
        Err(e) => r == Err::<Workbook, WorkbookError>(e),
        Ok(strings) => match part_read(m, "xl/styles.xml"@, true) {
            Err(e) => r == Err::<Workbook, WorkbookError>(e),
            Ok(styles) => match part_read(m, "xl/workbook.xml"@, true) {
                Err(e) => r == Err::<Workbook, WorkbookError>(e),
                Ok(workbook) => r matches Ok(wb) && members(wb.xls) == m && holds_parts(
                    wb,
                    strings,
                    styles,
                    workbook,
                ),
            },
        },
    }
}

/// What comes of listing the sheets of a workbook in a container with the
/// members `m`. The relationships are read first, then the workbook part.
/// The first part that cannot be read or has a malformed event fails the
/// listing with its error. Else the catalogue is made of the sheets that
/// the events of the workbook part list, with the members that the events
/// of the relationships part give them. The listing fails where a
/// relationship or a sheet lacks an attribute, and where no catalogue can be
/// made of them.
pub open spec fn listed(m: Map<Seq<char>, Option<Seq<u8>>>, r: Result<SheetMap, WorkbookError>)
    -> bool {
    match part_read(m, "xl/_rels/workbook.xml.rels"@, true) {
        Err(e) => r == Err::<SheetMap, WorkbookError>(e),
        Ok(rels) => if !all_relationships_given(rels) {
            r == Err::<SheetMap, WorkbookError>(WorkbookError::Structure)
        } else {
            match part_read(m, "xl/workbook.xml"@, true) {
                Err(e) => r == Err::<SheetMap, WorkbookError>(e),
                Ok(events) => if all_sheets_given(events) && can_list(
                    sheet_entries_of(events),
                    relationships_of(rels),
                ) {
                    r matches Ok(map) && map.wf() && is_catalogue(
                        map.sheets@,
                        sheet_entries_of(events),
                        relationships_of(rels),
                    )
                } else {
                    r == Err::<SheetMap, WorkbookError>(WorkbookError::Structure)
                },
            }
        },
    }
}

impl Workbook {
    /// Opens the workbook that the bytes of a container hold. Its shared
    /// strings, its styles and its date system are read at once; a part
    /// that is not there counts as one that declares nothing.
    pub fn open(bytes: Vec<u8>) -> (r: Result<Workbook, WorkbookError>)
        ensures
            match container_members(bytes@) {
                Some(m) => opened(m, r),
                None => r == Err::<Workbook, WorkbookError>(WorkbookError::NotAnArchive),
            },
    {
        let mut xls = match open_archive(bytes) {
            Some(xls) => xls,
            None => {
                return Err(WorkbookError::NotAnArchive);
            },
        };
        let strings = match part_events(&mut xls, "xl/sharedStrings.xml", false) {
            Ok(Some(events)) => shared_strings(events.as_slice()),
            Ok(None) => Vec::new(),
            Err(e) => {
                return Err(e);
            },
        };
        let styles = match part_events(&mut xls, "xl/styles.xml", true) {
            Ok(Some(events)) => styles(events.as_slice()),
            Ok(None) => Vec::new(),
            Err(e) => {
                return Err(e);
            },
        };
        let date_system = match part_events(&mut xls, "xl/workbook.xml", true) {
            Ok(Some(events)) => date_system(events.as_slice()),
            Ok(None) => DateSystem::V1900,
            Err(e) => {
                return Err(e);
            },
        };
        proof {
            assert(text_views(strings@) =~= shared_strings_of(
                part_read(members(xls), "xl/sharedStrings.xml"@, false).unwrap(),
            ));
            assert(text_views(styles@) =~= styles_of(
                part_read(members(xls), "xl/styles.xml"@, true).unwrap(),
            ));
        }
        Ok(Workbook { xls, encoding: String::from_str("utf8"), date_system, strings, styles })
    }

    /// Opens the workbook that the bytes of a container hold, if they hold
    /// one: none where the bytes are no container, or a part cannot be read
    /// or is not well-formed XML.
    pub fn new(bytes: Vec<u8>) -> (r: Option<Self>)
        ensures
            match container_members(bytes@) {
                Some(m) => match r {
                    Some(wb) => opened(m, Ok(wb)),
                    None => exists|e: WorkbookError| #[trigger] opened(m, Err(e)),
                },
                None => r is None,
            },
    {
        match Workbook::open(bytes) {
            Ok(wb) => Some(wb),
            Err(_) => None,
        }
    }

    /// The names of the members of the container, each once, in no order
    /// that can be told.
    pub fn contents(&self) -> (names: Vec<String>)
        ensures
            forall|name: Seq<char>| #[trigger]
                members(self.xls).contains_key(name) <==> lists(names@, name),
            no_name_twice(names@),
    {
        member_names(&self.xls)
    }

    /// The catalogue of the sheets of the workbook, each with the member
    /// where its rows are found.
    pub fn sheets(&mut self) -> (r: Result<SheetMap, WorkbookError>)
        ensures
            listed(members(old(self).xls), r),
            members(final(self).xls) == members(old(self).xls),
            final(self).encoding == old(self).encoding,
            final(self).date_system == old(self).date_system,
            final(self).strings == old(self).strings,
            final(self).styles == old(self).styles,
    {
        let rel_events = match part_events(&mut self.xls, "xl/_rels/workbook.xml.rels", true) {
            Ok(Some(events)) => events,
            Ok(None) => Vec::new(),
            Err(e) => {
                return Err(e);
            },
        };
        let rels = match relationships(rel_events.as_slice()) {
            Ok(rels) => rels,
            Err(e) => {
                return Err(e);
            },
        };
        let events = match part_events(&mut self.xls, "xl/workbook.xml", true) {
            Ok(Some(events)) => events,
            Ok(None) => Vec::new(),
            Err(e) => {
                return Err(e);
            },
        };
        catalogue(events.as_slice(), rels.as_slice())
    }
}

impl Worksheet {
    /// Obtain a `RowIter` for this worksheet (that is in `workbook`). This
    /// is, arguably, the main part of the library. You use this method to
    /// iterate through all the values in this sheet.
    pub fn rows<'a>(&self, workbook: &'a mut Workbook) -> (r: RowIter<'a>)
        ensures
            r.wf(),
            r.wanted() == 1,
            r.columns() == 0,
            r.rows() == 0,
            r.buffered() is None,
            !r.done(),
            r.strings() == old(workbook).strings@,
            r.styles() == old(workbook).styles@,
            r.date_system() == old(workbook).date_system,
            match part_bytes(members(old(workbook).xls), self.target@) {
                Some(bytes) => r.failed() is None && r.events() == events_in(bytes, true),
                None => r.failed() == Some(SheetError::Part),
            },
    {
        let (xml, failure) = match read_member(&mut workbook.xls, self.target.as_str()) {
            Ok(xml) => (xml, None),
            Err(_) => (Vec::new(), Some(SheetError::Part)),
        };
        let reader = SheetReader::new(
            XmlReader::new(xml, true),
            workbook.strings.as_slice(),
            workbook.styles.as_slice(),
            &workbook.date_system,
        );
        RowIter::new(reader, failure)
    }

    /// Reads the contents of this worksheet and returns it as
    /// comma-separated text: one line for each row of the part, with
    /// commas for the cells that a row leaves out. The text is what a new
    /// sink has written once it has been fed the events of the part one by
    /// one. It fails where the container has no such part that can be read,
    /// and where the sink fails on an event.
    pub fn read_to_buffer(&self, workbook: &mut Workbook) -> (r: Result<Vec<u8>, SheetError>)
        ensures
            final(workbook).encoding == old(workbook).encoding,
            final(workbook).date_system == old(workbook).date_system,
            final(workbook).strings == old(workbook).strings,
            final(workbook).styles == old(workbook).styles,
            members(final(workbook).xls) == members(old(workbook).xls),
            match part_bytes(members(old(workbook).xls), self.target@) {
                Some(bytes) => written(
                    events_in(bytes, true),
                    old(workbook).strings@,
                    old(workbook).styles@,
                    old(workbook).date_system,
                    r,
                ),
                None => r == Err::<Vec<u8>, SheetError>(SheetError::Part),
            },
    {
        let xml = match read_member(&mut workbook.xls, self.target.as_str()) {
            Ok(xml) => xml,
            Err(_) => {
                return Err(SheetError::Part);
            },
        };
        let mut reader = XmlReader::new(xml, true);
        let ghost all = pending(reader);
        let mut sink = CsvSink::new();
        let ghost mut states: Seq<CsvSink> = seq![sink];
        let ghost mut fed: int = 0;
        assert(all.take(0) =~= Seq::<XmlEvent>::empty());
        loop
            invariant
                sink.wf(),
                workbook.encoding == old(workbook).encoding,
                workbook.date_system == old(workbook).date_system,
                workbook.strings == old(workbook).strings,
                workbook.styles == old(workbook).styles,
                members(workbook.xls) == members(old(workbook).xls),
                part_bytes(members(old(workbook).xls), self.target@) is Some,
                all == events_in(
                    part_bytes(members(old(workbook).xls), self.target@).unwrap(),
                    true,
                ),
                0 <= fed <= all.len(),
                pending(reader) == all.skip(fed),
                is_run(
                    states,
                    all.take(fed),
                    workbook.strings@,
                    workbook.styles@,
                    workbook.date_system,
                ),
                states.last() == sink,
            decreases all.len() - fed,
        {
            let event = next_event(&mut reader);
            match sink.feed(
                event,
                workbook.strings.as_slice(),
                workbook.styles.as_slice(),
                &workbook.date_system,
            ) {
                Ok(true) => {
                    assert(is_run(
                        states,
                        all.take(fed),
                        workbook.strings@,
                        workbook.styles@,
                        workbook.date_system,
                    ));
                    return Ok(sink.out);
                },
                Ok(false) => {
                    proof {
                        states = states.push(sink);
                        fed = fed + 1;
                    }
                },
                Err(e) => {
                    assert(is_run(
                        states,
                        all.take(fed),
                        workbook.strings@,
                        workbook.styles@,
                        workbook.date_system,
                    ) && states.last().fed(
                        &sink,
                        all[fed],
                        workbook.strings@,
                        workbook.styles@,
                        workbook.date_system,
                        Err::<bool, SheetError>(e),
                    ));
                    return Err(e);
                },
            }
        }
    }
}

} // verus!
