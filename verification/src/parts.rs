//! What the parts of a workbook hold: relationships, sheets, shared strings,
//! styles and the date system.

use crate::model::DateSystem;
use crate::sheet::text_or;
use crate::value::same_text;
use crate::workbook::WorkbookError;
use crate::xml::{attribute_of, get, Attribute, XmlEvent};
use vstd::prelude::*;
use vstd::string::StringExecFns;

verus! {

/// A key and what it stands for: the identifier of a relationship and the
/// part it points at, or the number of a format and its code.
#[derive(Clone, Debug, PartialEq, Eq)]
pub struct Entry {
    pub key: String,
    pub value: String,
}

/// The event is a relationship: `<Relationship .../>`.
pub open spec fn is_relationship(event: XmlEvent) -> bool {
    event matches XmlEvent::Empty(e) && e.name@ == "Relationship"@
}

/// The relationship that the event declares, if it declares one in full:
/// `<Relationship Id=".." Target=".."/>`.
pub open spec fn relationship_of(event: XmlEvent) -> Option<(Seq<char>, Seq<char>)> {
    match event {
        XmlEvent::Empty(e) => if e.name@ == "Relationship"@ {
            match (attribute_of(e.attributes@, "Id"@), attribute_of(e.attributes@, "Target"@)) {
                (Some(id), Some(target)) => Some((id, target)),
                _ => None,
            }
        } else {
            None
        },
        _ => None,
    }
}

/// Every relationship among the events has its identifier and its target.
pub open spec fn all_relationships_given(events: Seq<XmlEvent>) -> bool {
    forall|i: int|
        0 <= i < events.len() && is_relationship(#[trigger] events[i]) ==> relationship_of(
            events[i],
        ) is Some
}

/// The relationships that the events declare, in their order.
pub open spec fn relationships_of(events: Seq<XmlEvent>) -> Seq<(Seq<char>, Seq<char>)>
    decreases events.len(),
{
    if events.len() == 0 {
        Seq::empty()
    } else {
        match relationship_of(events.last()) {
            Some(r) => relationships_of(events.drop_last()).push(r),
            None => relationships_of(events.drop_last()),
        }
    }
}

/// The entries as pairs of texts.
pub open spec fn entry_views(rels: Seq<Entry>) -> Seq<(Seq<char>, Seq<char>)> {
    Seq::new(rels.len(), |i: int| (rels[i].key@, rels[i].value@))
}

/// What the last pair with the key `id` stands for.
pub open spec fn lookup_last(rels: Seq<(Seq<char>, Seq<char>)>, id: Seq<char>) -> Option<Seq<char>>
    decreases rels.len(),
{
    if rels.len() == 0 {
        None
    } else if rels.last().0 == id {
        Some(rels.last().1)
    } else {
        lookup_last(rels.drop_last(), id)
    }
}

/// The relationships that the events of the relationships part declare.
/// It fails where a relationship lacks its identifier or its target.
pub fn relationships(events: &[XmlEvent]) -> (r: Result<Vec<Entry>, WorkbookError>)
    ensures
        r is Ok <==> all_relationships_given(events@),
        r is Err ==> r == Err::<Vec<Entry>, WorkbookError>(WorkbookError::Structure),
        r matches Ok(rels) ==> entry_views(rels@) == relationships_of(events@),
{
    let mut rels: Vec<Entry> = Vec::new();
    let mut i: usize = 0;
    while i < events.len()
        invariant
            i <= events@.len(),
            entry_views(rels@) == relationships_of(events@.take(i as int)),
            all_relationships_given(events@.take(i as int)),
        decreases events@.len() - i,
    {
        proof {
            let t = events@.take(i as int + 1);
            assert(t.drop_last() == events@.take(i as int));
        }
        match &events[i] {
            XmlEvent::Empty(e) => {
                if same_text(e.name.as_str(), "Relationship") {
                    match (get(&e.attributes, "Id"), get(&e.attributes, "Target")) {
                        (Some(id), Some(target)) => {
                            let ghost before = rels@;
                            rels.push(Entry { key: id.clone(), value: target.clone() });
                            assert(entry_views(rels@) =~= entry_views(before).push(
                                (id@, target@),
                            ));
                        },
                        _ => {
                            assert(is_relationship(events@[i as int]));
                            return Err(WorkbookError::Structure);
                        },
                    }
                }
            },
            _ => {},
        }
        assert forall|j: int|
            0 <= j < i + 1 && is_relationship(
                #[trigger] events@.take(i as int + 1)[j],
            ) implies relationship_of(events@.take(i as int + 1)[j]) is Some by {
            if j < i {
                assert(events@.take(i as int + 1)[j] == events@.take(i as int)[j]);
            }
        }
        i = i + 1;
    }
    assert(events@.take(i as int) == events@);
    Ok(rels)
}

/// What the last entry with the key `id` stands for.
pub fn find_last<'a>(rels: &'a [Entry], id: &str) -> (r: Option<&'a String>)
    ensures
        r is Some <==> lookup_last(entry_views(rels@), id@) is Some,
        r matches Some(t) ==> lookup_last(entry_views(rels@), id@) == Some(t@),
{
    let mut i: usize = rels.len();
    assert(entry_views(rels@).take(i as int) == entry_views(rels@));
    while i > 0
        invariant
            i <= rels@.len(),
            lookup_last(entry_views(rels@), id@) == lookup_last(
                entry_views(rels@).take(i as int),
                id@,
            ),
        decreases i,
    {
        i = i - 1;
        proof {
            let t = entry_views(rels@).take(i as int + 1);
            assert(t.drop_last() == entry_views(rels@).take(i as int));
        }
        if same_text(rels[i].key.as_str(), id) {
            return Some(&rels[i].value);
        }
    }
    None
}

/// The date system that the events of the workbook part declare: that of
/// 1904 where the last `<workbookPr/>` with an attribute `date1904` has it
/// as `1` or `true`, and that of 1900 otherwise.
pub open spec fn date_system_of(events: Seq<XmlEvent>) -> DateSystem
    decreases events.len(),
{
    if events.len() == 0 {
        DateSystem::V1900
    } else {
        match declared_date_system(events.last()) {
            Some(system) => system,
            None => date_system_of(events.drop_last()),
        }
    }
}

/// The date system that the event declares, if it declares one.
pub open spec fn declared_date_system(event: XmlEvent) -> Option<DateSystem> {
    match event {
        XmlEvent::Empty(e) => if e.name@ == "workbookPr"@ {
            match attribute_of(e.attributes@, "date1904"@) {
                Some(v) => if v == "1"@ || v == "true"@ {
                    Some(DateSystem::V1904)
                } else {
                    Some(DateSystem::V1900)
                },
                None => None,
            }
        } else {
            None
        },
        _ => None,
    }
}

/// The date system that the events of the workbook part declare.
pub fn date_system(events: &[XmlEvent]) -> (r: DateSystem)
    ensures
        r == date_system_of(events@),
{
    let mut system = DateSystem::V1900;
    let mut i: usize = 0;
    while i < events.len()
        invariant
            i <= events@.len(),
            system == date_system_of(events@.take(i as int)),
        decreases events@.len() - i,
    {
        proof {
            let t = events@.take(i as int + 1);
            assert(t.drop_last() == events@.take(i as int));
        }
        match &events[i] {
            XmlEvent::Empty(e) => {
                if same_text(e.name.as_str(), "workbookPr") {
                    match get(&e.attributes, "date1904") {
                        Some(v) => {
                            if same_text(v.as_str(), "1") || same_text(v.as_str(), "true") {
                                system = DateSystem::V1904;
                            } else {
                                system = DateSystem::V1900;
                            }
                        },
                        None => {},
                    }
                }
            },
            _ => {},
        }
        i = i + 1;
    }
    assert(events@.take(i as int) == events@);
    system
}

/// The shared strings in the making.
pub struct StringsState {
    /// The strings that are complete.
    pub strings: Seq<Seq<char>>,
    /// The string of the `<si>` that is open.
    pub current: Seq<char>,
    /// A `<t>` is open.
    pub in_text: bool,
}

/// What the event makes of the shared strings: `<si>` begins a string,
/// character data inside `<t>` is added to it, `</si>` completes it, and
/// `<si/>` is an empty string.
pub open spec fn strings_step(state: StringsState, event: XmlEvent) -> StringsState {
    match event {
        XmlEvent::Start(e) => if e.name@ == "si"@ {
            StringsState { current: Seq::empty(), ..state }
        } else if e.name@ == "t"@ {
            StringsState { in_text: true, ..state }
        } else {
            state
        },
        XmlEvent::Empty(e) => if e.name@ == "si"@ {
            StringsState { strings: state.strings.push(Seq::empty()), ..state }
        } else {
            state
        },
        XmlEvent::Text(t) => if state.in_text {
            StringsState { current: state.current + t.text@, ..state }
        } else {
            state
        },
        XmlEvent::End(name) => if name@ == "t"@ {
            StringsState { in_text: false, ..state }
        } else if name@ == "si"@ {
            StringsState {
                strings: state.strings.push(state.current),
                current: Seq::empty(),
                ..state
            }
        } else {
            state
        },
        _ => state,
    }
}

/// What the events make of the shared strings.
pub open spec fn strings_after(events: Seq<XmlEvent>) -> StringsState
    decreases events.len(),
{
    if events.len() == 0 {
        StringsState { strings: Seq::empty(), current: Seq::empty(), in_text: false }
    } else {
        strings_step(strings_after(events.drop_last()), events.last())
    }
}

/// The shared strings that the events declare: one for each `<si>`, made
/// of the character data of all the `<t>` inside it.
pub open spec fn shared_strings_of(events: Seq<XmlEvent>) -> Seq<Seq<char>> {
    strings_after(events).strings
}

/// The strings as texts.
pub open spec fn text_views(strings: Seq<String>) -> Seq<Seq<char>> {
    Seq::new(strings.len(), |i: int| strings[i]@)
}

/// The shared strings that the events of the shared-strings part declare.
pub fn shared_strings(events: &[XmlEvent]) -> (strings: Vec<String>)
    ensures
        text_views(strings@) == shared_strings_of(events@),
{
    let mut strings: Vec<String> = Vec::new();
    let mut current = String::new();
    let mut in_text = false;
    let mut i: usize = 0;
    assert(text_views(strings@) =~= Seq::<Seq<char>>::empty());
    while i < events.len()
        invariant
            i <= events@.len(),
            strings_after(events@.take(i as int)) == (StringsState {
                strings: text_views(strings@),
                current: current@,
                in_text,
            }),
        decreases events@.len() - i,
    {
        proof {
            let t = events@.take(i as int + 1);
            assert(t.drop_last() == events@.take(i as int));
        }
        let ghost before = strings@;
        match &events[i] {
            XmlEvent::Start(e) => {
                if same_text(e.name.as_str(), "si") {
                    current = String::new();
                } else if same_text(e.name.as_str(), "t") {
                    in_text = true;
                }
            },
            XmlEvent::Empty(e) => {
                if same_text(e.name.as_str(), "si") {
                    strings.push(String::new());
                    assert(text_views(strings@) =~= text_views(before).push(Seq::empty()));
                }
            },
            XmlEvent::Text(t) => {
                if in_text {
                    current.append(t.text.as_str());
                }
            },
            XmlEvent::End(name) => {
                if same_text(name.as_str(), "t") {
                    in_text = false;
                } else if same_text(name.as_str(), "si") {
                    let mut done = String::new();
                    std::mem::swap(&mut done, &mut current);
                    strings.push(done);
                    assert(text_views(strings@) =~= text_views(before).push(done@));
                }
            },
            _ => {},
        }
        i = i + 1;
    }
    assert(events@.take(i as int) == events@);
    strings
}

/// The code of the format with the number `id` that every workbook has.
pub open spec fn builtin_format_of(id: Seq<char>) -> Option<Seq<char>> {
    if id == "0"@ {
        Some("General"@)
    } else if id == "1"@ {
        Some("0"@)
    } else if id == "2"@ {
        Some("0.00"@)
    } else if id == "3"@ {
        Some("#,##0"@)
    } else if id == "4"@ {
        Some("#,##0.00"@)
    } else if id == "9"@ {
        Some("0%"@)
    } else if id == "10"@ {
        Some("0.00%"@)
    } else if id == "11"@ {
        Some("0.00E+00"@)
    } else if id == "12"@ {
        Some("# ?/?"@)
    } else if id == "13"@ {
        Some("# ??/??"@)
    } else if id == "14"@ {
        Some("mm-dd-yy"@)
    } else if id == "15"@ {
        Some("d-mmm-yy"@)
    } else if id == "16"@ {
        Some("d-mmm"@)
    } else if id == "17"@ {
        Some("mmm-yy"@)
    } else if id == "18"@ {
        Some("h:mm AM/PM"@)
    } else if id == "19"@ {
        Some("h:mm:ss AM/PM"@)
    } else if id == "20"@ {
        Some("h:mm"@)
    } else if id == "21"@ {
        Some("h:mm:ss"@)
    } else if id == "22"@ {
        Some("m/d/yy h:mm"@)
    } else if id == "37"@ {
        Some("#,##0 ;(#,##0)"@)
    } else if id == "38"@ {
        Some("#,##0 ;[Red](#,##0)"@)
    } else if id == "39"@ {
        Some("#,##0.00;(#,##0.00)"@)
    } else if id == "40"@ {
        Some("#,##0.00;[Red](#,##0.00)"@)
    } else if id == "45"@ {
        Some("mm:ss"@)
    } else if id == "46"@ {
        Some("[h]:mm:ss"@)
    } else if id == "47"@ {
        Some("mmss.0"@)
    } else if id == "48"@ {
        Some("##0.0E+0"@)
    } else if id == "49"@ {
        Some("@"@)
    } else {
        None
    }
}

/// The code of the format with the number `id` that every workbook has.
pub fn builtin_format(id: &str) -> (r: Option<&'static str>)
    ensures
        r is Some <==> builtin_format_of(id@) is Some,
        r matches Some(code) ==> builtin_format_of(id@) == Some(code@),
{
    if same_text(id, "0") {
        Some("General")
    } else if same_text(id, "1") {
        Some("0")
    } else if same_text(id, "2") {
        Some("0.00")
    } else if same_text(id, "3") {
        Some("#,##0")
    } else if same_text(id, "4") {
        Some("#,##0.00")
    } else if same_text(id, "9") {
        Some("0%")
    } else if same_text(id, "10") {
        Some("0.00%")
    } else if same_text(id, "11") {
        Some("0.00E+00")
    } else if same_text(id, "12") {
        Some("# ?/?")
    } else if same_text(id, "13") {
        Some("# ??/??")
    } else if same_text(id, "14") {
        Some("mm-dd-yy")
    } else if same_text(id, "15") {
        Some("d-mmm-yy")
    } else if same_text(id, "16") {
        Some("d-mmm")
    } else if same_text(id, "17") {
        Some("mmm-yy")
    } else if same_text(id, "18") {
        Some("h:mm AM/PM")
    } else if same_text(id, "19") {
        Some("h:mm:ss AM/PM")
    } else if same_text(id, "20") {
        Some("h:mm")
    } else if same_text(id, "21") {
        Some("h:mm:ss")
    } else if same_text(id, "22") {
        Some("m/d/yy h:mm")
    } else if same_text(id, "37") {
        Some("#,##0 ;(#,##0)")
    } else if same_text(id, "38") {
        Some("#,##0 ;[Red](#,##0)")
    } else if same_text(id, "39") {
        Some("#,##0.00;(#,##0.00)")
    } else if same_text(id, "40") {
        Some("#,##0.00;[Red](#,##0.00)")
    } else if same_text(id, "45") {
        Some("mm:ss")
    } else if same_text(id, "46") {
        Some("[h]:mm:ss")
    } else if same_text(id, "47") {
        Some("mmss.0")
    } else if same_text(id, "48") {
        Some("##0.0E+0")
    } else if same_text(id, "49") {
        Some("@")
    } else {
        None
    }
}

/// The code of the format with the number `id`: the last that the
/// workbook declares for it, else the one that every workbook has, else
/// none at all.
pub open spec fn format_code_of(formats: Seq<(Seq<char>, Seq<char>)>, id: Seq<char>) -> Seq<char> {
    match lookup_last(formats, id) {
        Some(code) => code,
        None => text_or(builtin_format_of(id), Seq::empty()),
    }
}

/// The code of the format with the number `id`.
pub fn format_code(formats: &[Entry], id: &str) -> (r: String)
    ensures
        r@ == format_code_of(entry_views(formats@), id@),
{
    match find_last(formats, id) {
        Some(code) => code.clone(),
        None => match builtin_format(id) {
            Some(code) => String::from_str(code),
            None => String::new(),
        },
    }
}

/// The styles in the making.
pub struct StylesState {
    /// The formats that the part has declared.
    pub formats: Seq<(Seq<char>, Seq<char>)>,
    /// The format codes of the cell styles so far.
    pub styles: Seq<Seq<char>>,
    /// `<cellXfs>` is open.
    pub recording: bool,
}

/// The format that a `numFmt` tag with these attributes declares, if it
/// has a number and a code.
pub open spec fn declared_format(attributes: Seq<Attribute>) -> Option<(Seq<char>, Seq<char>)> {
    match (attribute_of(attributes, "numFmtId"@), attribute_of(attributes, "formatCode"@)) {
        (Some(id), Some(code)) => Some((id, code)),
        _ => None,
    }
}

/// The styles after a tag with the name `name` and these attributes has
/// opened: inside `<cellXfs>`, an `xf` adds the code of the format that
/// its `numFmtId` names, and that of format `0` where it names none.
pub open spec fn styles_opened(state: StylesState, name: Seq<char>, attributes: Seq<Attribute>)
    -> StylesState {
    if name == "xf"@ && state.recording {
        StylesState {
            styles: state.styles.push(
                format_code_of(state.formats, text_or(attribute_of(attributes, "numFmtId"@), "0"@)),
            ),
            ..state
        }
    } else {
        state
    }
}

/// What the event makes of the styles.
pub open spec fn styles_step(state: StylesState, event: XmlEvent) -> StylesState {
    match event {
        XmlEvent::Empty(e) => if e.name@ == "numFmt"@ {
            match declared_format(e.attributes@) {
                Some(format) => StylesState { formats: state.formats.push(format), ..state },
                None => state,
            }
        } else {
            styles_opened(state, e.name@, e.attributes@)
        },
        XmlEvent::Start(e) => if e.name@ == "cellXfs"@ {
            StylesState { recording: true, ..state }
        } else {
            styles_opened(state, e.name@, e.attributes@)
        },
        XmlEvent::End(name) => if name@ == "cellXfs"@ {
            StylesState { recording: false, ..state }
        } else {
            state
        },
        _ => state,
    }
}

/// What the events make of the styles.
pub open spec fn styles_after(events: Seq<XmlEvent>) -> StylesState
    decreases events.len(),
{
    if events.len() == 0 {
        StylesState { formats: Seq::empty(), styles: Seq::empty(), recording: false }
    } else {
        styles_step(styles_after(events.drop_last()), events.last())
    }
}

/// The format codes of the cell styles that the events declare, in the
/// order of the `xf` tags inside `<cellXfs>`.
pub open spec fn styles_of(events: Seq<XmlEvent>) -> Seq<Seq<char>> {
    styles_after(events).styles
}

/// Adds the style of an `xf` tag with these attributes.
fn push_style(styles: &mut Vec<String>, formats: &[Entry], attributes: &[Attribute])
    ensures
        text_views(final(styles)@) == text_views(old(styles)@).push(
            format_code_of(
                entry_views(formats@),
                text_or(attribute_of(attributes@, "numFmtId"@), "0"@),
            ),
        ),
{
    let code = match get(attributes, "numFmtId") {
        Some(id) => format_code(formats, id.as_str()),
        None => format_code(formats, "0"),
    };
    styles.push(code);
}

/// The format codes of the cell styles that the events of the styles part
/// declare.
pub fn styles(events: &[XmlEvent]) -> (styles: Vec<String>)
    ensures
        text_views(styles@) == styles_of(events@),
{
    let mut formats: Vec<Entry> = Vec::new();
    let mut styles: Vec<String> = Vec::new();
    let mut recording = false;
    let mut i: usize = 0;
    assert(text_views(styles@) =~= Seq::<Seq<char>>::empty());
    assert(entry_views(formats@) =~= Seq::<(Seq<char>, Seq<char>)>::empty());
    while i < events.len()
        invariant
            i <= events@.len(),
            styles_after(events@.take(i as int)) == (StylesState {
                formats: entry_views(formats@),
                styles: text_views(styles@),
                recording,
            }),
        decreases events@.len() - i,
    {
        proof {
            let t = events@.take(i as int + 1);
            assert(t.drop_last() == events@.take(i as int));
        }
        let ghost before = formats@;
        match &events[i] {
            XmlEvent::Empty(e) => {
                if same_text(e.name.as_str(), "numFmt") {
                    match (get(&e.attributes, "numFmtId"), get(&e.attributes, "formatCode")) {
                        (Some(id), Some(code)) => {
                            formats.push(Entry { key: id.clone(), value: code.clone() });
                            assert(entry_views(formats@) =~= entry_views(before).push(
                                (id@, code@),
                            ));
                        },
                        _ => {},
                    }
                } else if same_text(e.name.as_str(), "xf") && recording {
                    push_style(&mut styles, &formats, &e.attributes);
                }
            },
            XmlEvent::Start(e) => {
                if same_text(e.name.as_str(), "cellXfs") {
                    recording = true;
                } else if same_text(e.name.as_str(), "xf") && recording {
                    push_style(&mut styles, &formats, &e.attributes);
                }
            },
            XmlEvent::End(name) => {
                if same_text(name.as_str(), "cellXfs") {
                    recording = false;
                }
            },
            _ => {},
        }
        i = i + 1;
    }
    assert(events@.take(i as int) == events@);
    styles
}

} // verus!
