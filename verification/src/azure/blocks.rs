//! Blobs that are uploaded in blocks.

use vstd::prelude::*;
use vstd::string::*;
use vstd::utf8::encode_utf8;
use crate::azure::AzureBlobAdapter;
use crate::azure::basics::{
    azure_versioning_enabled, blob_not_found, blob_type, condition_failed, conditions_match,
    container_not_found, content_type, ensure_lease_allows,
    ensure_version_creating_overwrite_allowed, error_response, metadata_from_headers, quote, quoted,
    refuse, refuse_blob, refuse_condition, refuse_container, reply, response, with_blob_type,
    with_lease_of, write_condition,
};
use crate::azure::rules::blob_state_key;
use crate::clock::{format_last_modified_at, http_date, Stamp, StampView};
use crate::codec::{base64_bytes, base64_decode};
use crate::http::{Context, ContextView, Response, ResponseView};
use crate::number::{decimal, show, show_usize};
use crate::order::{sort, sorted};
use crate::store::{
    ask, asked, known, new_object, no_blocks, require, Asked, AskedView, BlockSession,
    BlockSessionView, Blocks, BlocksSlot, Bucket, ConditionView, Effect, EffectView, ErrorKind,
    Gained, Known, KnownView, Object, ObjectCondition, ObjectView, SessionSlot, Step, StepView,
    Tape, TapeView,
};
use crate::table::{get, with, without, Copied, Table};
use crate::text::{
    cat3, copy_bytes, escape_xml, or_else, or_text, same, same_bytes, text_of, trim, trimmed,
    utf8_text, xml,
};
use crate::views::{each, each_empty, each_push, seen, settled, Text};
use crate::xml::{read_xml, unescape_xml, xml_events, xml_unescaped, XmlEvent, XmlEventView};

verus! {

/// Where a block of a list is to be taken from.
#[derive(Clone, Copy, PartialEq, Eq, Structural, Debug)]
pub enum AzureBlockSelector {
    Latest,
    Committed,
    Uncommitted,
}

impl View for AzureBlockSelector {
    type V = AzureBlockSelector;

    open spec fn view(&self) -> AzureBlockSelector {
        *self
    }
}

/// One entry of a block list.
pub struct AzureBlockReference {
    pub id: String,
    pub selector: AzureBlockSelector,
}

impl View for AzureBlockReference {
    type V = (Text, AzureBlockSelector);

    open spec fn view(&self) -> (Text, AzureBlockSelector) {
        (self.id@, self.selector)
    }
}

/// Entries of a block list over characters.
pub type ReferencesView = Seq<(Text, AzureBlockSelector)>;

/// Why a block list was refused.
#[derive(Clone, Copy, PartialEq, Eq, Structural, Debug)]
pub enum AzureBlockListError {
    InvalidXmlDocument,
    InvalidBlockList,
}

impl View for AzureBlockListError {
    type V = AzureBlockListError;

    open spec fn view(&self) -> AzureBlockListError {
        *self
    }
}

/// How far the reading of a block list has come: whether the list was opened and closed,
/// which entry is open and with what text, and the entries that were closed.
pub struct ListReader {
    pub root_seen: bool,
    pub root_closed: bool,
    pub current: Option<AzureBlockSelector>,
    pub id: String,
    pub references: Vec<AzureBlockReference>,
}

/// A list reader over characters.
pub struct ListReaderView {
    pub root_seen: bool,
    pub root_closed: bool,
    pub current: Option<AzureBlockSelector>,
    pub id: Text,
    pub references: ReferencesView,
}

impl View for ListReader {
    type V = ListReaderView;

    open spec fn view(&self) -> ListReaderView {
        ListReaderView {
            root_seen: self.root_seen,
            root_closed: self.root_closed,
            current: self.current,
            id: self.id@,
            references: each(self.references@),
        }
    }
}

pub open spec fn list_start() -> ListReaderView {
    ListReaderView {
        root_seen: false,
        root_closed: false,
        current: None,
        id: Seq::empty(),
        references: Seq::empty(),
    }
}

/// The selector that an element stands for.
pub open spec fn selector_of(name: Seq<u8>) -> Option<AzureBlockSelector> {
    if name == encode_utf8("Latest"@) {
        Some(AzureBlockSelector::Latest)
    } else if name == encode_utf8("Committed"@) {
        Some(AzureBlockSelector::Committed)
    } else if name == encode_utf8("Uncommitted"@) {
        Some(AzureBlockSelector::Uncommitted)
    } else {
        None
    }
}

impl ListReaderView {
    /// Whether the list is open and no entry in it is.
    pub open spec fn between(self) -> bool {
        self.root_seen && !self.root_closed && self.current is None
    }

    /// The reader behind one more event, or why the list is refused there.
    pub open spec fn advance(self, event: XmlEventView) -> Result<
        ListReaderView,
        AzureBlockListError,
    > {
        match event {
            XmlEventView::Start(name) => if !self.root_seen && name == encode_utf8("BlockList"@) {
                Ok(ListReaderView { root_seen: true, ..self })
            } else if self.between() && selector_of(name) is Some {
                Ok(ListReaderView { current: selector_of(name), id: Seq::empty(), ..self })
            } else {
                Err(AzureBlockListError::InvalidBlockList)
            },
            XmlEventView::End(name) => match self.current {
                Some(selector) => if selector_of(name) != Some(selector) {
                    Err(AzureBlockListError::InvalidXmlDocument)
                } else if self.id.len() == 0 {
                    Err(AzureBlockListError::InvalidBlockList)
                } else {
                    Ok(
                        ListReaderView {
                            current: None,
                            id: Seq::empty(),
                            references: self.references.push((self.id, selector)),
                            ..self
                        },
                    )
                },
                None => if self.between() && name == encode_utf8("BlockList"@) {
                    Ok(ListReaderView { root_closed: true, ..self })
                } else {
                    Err(AzureBlockListError::InvalidXmlDocument)
                },
            },
            XmlEventView::Text(None) => Err(AzureBlockListError::InvalidXmlDocument),
            XmlEventView::Text(Some(text)) => if self.current is Some {
                match xml_unescaped(text) {
                    Some(value) => Ok(ListReaderView { id: self.id + value, ..self }),
                    None => Err(AzureBlockListError::InvalidXmlDocument),
                }
            } else if trim(text).len() > 0 {
                Err(AzureBlockListError::InvalidBlockList)
            } else {
                Ok(self)
            },
            XmlEventView::CData(text) => if self.current is Some {
                match text {
                    Some(value) => Ok(ListReaderView { id: self.id + value, ..self }),
                    None => Err(AzureBlockListError::InvalidXmlDocument),
                }
            } else {
                Err(AzureBlockListError::InvalidBlockList)
            },
            XmlEventView::Decl | XmlEventView::Comment | XmlEventView::Instruction => Ok(self),
            XmlEventView::Empty | XmlEventView::DocType | XmlEventView::Reference => Err(
                AzureBlockListError::InvalidBlockList,
            ),
            XmlEventView::Broken => Err(AzureBlockListError::InvalidXmlDocument),
        }
    }

    /// The entries at the end of the document, or why the list is refused.
    pub open spec fn finish(self) -> Result<ReferencesView, AzureBlockListError> {
        if self.current is Some || self.root_seen && !self.root_closed {
            Err(AzureBlockListError::InvalidXmlDocument)
        } else if !self.root_seen || self.references.len() == 0 {
            Err(AzureBlockListError::InvalidBlockList)
        } else {
            Ok(self.references)
        }
    }
}

/// The entries that a reader comes to with the events from place `i` on.
pub open spec fn read_from(reader: ListReaderView, events: Seq<XmlEventView>, i: int) -> Result<
    ReferencesView,
    AzureBlockListError,
>
    decreases events.len() - i,
{
    if i >= events.len() {
        reader.finish()
    } else {
        match reader.advance(events[i]) {
            Ok(next) => read_from(next, events, i + 1),
            Err(error) => Err(error),
        }
    }
}

/// The entries of a block list, from the events of its document.
pub open spec fn references(events: Seq<XmlEventView>) -> Result<
    ReferencesView,
    AzureBlockListError,
> {
    read_from(list_start(), events, 0)
}

pub open spec fn parse_block_list(text: Text) -> Result<ReferencesView, AzureBlockListError> {
    references(xml_events(text))
}

fn is_element(name: &Vec<u8>, text: &str) -> (r: bool)
    ensures
        r == (name@ == encode_utf8(text@)),
{
    same_bytes(name.as_slice(), text.as_bytes())
}

fn selector(name: &Vec<u8>) -> (r: Option<AzureBlockSelector>)
    ensures
        r == selector_of(name@),
{
    if is_element(name, "Latest") {
        Some(AzureBlockSelector::Latest)
    } else if is_element(name, "Committed") {
        Some(AzureBlockSelector::Committed)
    } else if is_element(name, "Uncommitted") {
        Some(AzureBlockSelector::Uncommitted)
    } else {
        None
    }
}

impl ListReader {
    fn start() -> (r: ListReader)
        ensures
            r@ == list_start(),
    {
        proof {
            each_empty::<AzureBlockReference>();
        }
        ListReader {
            root_seen: false,
            root_closed: false,
            current: None,
            id: String::new(),
            references: Vec::new(),
        }
    }

    fn between(&self) -> (r: bool)
        ensures
            r == self@.between(),
    {
        self.root_seen && !self.root_closed && self.current.is_none()
    }

    /// Takes in one event.
    pub fn advance(self, event: &XmlEvent) -> (r: Result<ListReader, AzureBlockListError>)
        ensures
            settled(r) == self@.advance(event@),
    {
        let mut next = self;
        match event {
            XmlEvent::Start(name) => {
                let entry = selector(name);
                if !next.root_seen && is_element(name, "BlockList") {
                    next.root_seen = true;
                    Ok(next)
                } else if next.between() && entry.is_some() {
                    next.current = entry;
                    next.id = String::new();
                    Ok(next)
                } else {
                    Err(AzureBlockListError::InvalidBlockList)
                }
            },
            XmlEvent::End(name) => match next.current {
                Some(open) => {
                    match selector(name) {
                        Some(closed) if closed == open => {},
                        _ => return Err(AzureBlockListError::InvalidXmlDocument),
                    }
                    if next.id.as_str().unicode_len() == 0 {
                        return Err(AzureBlockListError::InvalidBlockList);
                    }
                    let reference = AzureBlockReference { id: next.id, selector: open };
                    proof {
                        each_push(next.references@, reference);
                    }
                    next.references.push(reference);
                    next.id = String::new();
                    next.current = None;
                    Ok(next)
                },
                None => if next.between() && is_element(name, "BlockList") {
                    next.root_closed = true;
                    Ok(next)
                } else {
                    Err(AzureBlockListError::InvalidXmlDocument)
                },
            },
            XmlEvent::Text(None) => Err(AzureBlockListError::InvalidXmlDocument),
            XmlEvent::Text(Some(text)) => if next.current.is_some() {
                match unescape_xml(text) {
                    Some(value) => {
                        next.id.append(&value);
                        Ok(next)
                    },
                    None => Err(AzureBlockListError::InvalidXmlDocument),
                }
            } else if trimmed(text).unicode_len() > 0 {
                Err(AzureBlockListError::InvalidBlockList)
            } else {
                Ok(next)
            },
            XmlEvent::CData(text) => if next.current.is_some() {
                match text {
                    Some(value) => {
                        next.id.append(value);
                        Ok(next)
                    },
                    None => Err(AzureBlockListError::InvalidXmlDocument),
                }
            } else {
                Err(AzureBlockListError::InvalidBlockList)
            },
            XmlEvent::Decl | XmlEvent::Comment | XmlEvent::Instruction => Ok(next),
            XmlEvent::Empty | XmlEvent::DocType | XmlEvent::Reference => Err(
                AzureBlockListError::InvalidBlockList,
            ),
            XmlEvent::Broken => Err(AzureBlockListError::InvalidXmlDocument),
        }
    }

    /// Ends the document.
    pub fn finish(self) -> (r: Result<Vec<AzureBlockReference>, AzureBlockListError>)
        ensures
            match r {
                Ok(found) => self@.finish() == Ok::<_, AzureBlockListError>(each(found@)),
                Err(error) => self@.finish() == Err::<ReferencesView, _>(error),
            },
    {
        if self.current.is_some() || self.root_seen && !self.root_closed {
            Err(AzureBlockListError::InvalidXmlDocument)
        } else if !self.root_seen || self.references.len() == 0 {
            Err(AzureBlockListError::InvalidBlockList)
        } else {
            Ok(self.references)
        }
    }
}

/// Reads the entries of a block list off the events of its document.
pub fn references_in(events: &Vec<XmlEvent>) -> (r: Result<
    Vec<AzureBlockReference>,
    AzureBlockListError,
>)
    ensures
        match r {
            Ok(found) => references(each(events@)) == Ok::<_, AzureBlockListError>(each(found@)),
            Err(error) => references(each(events@)) == Err::<ReferencesView, _>(error),
        },
{
    let mut reader = ListReader::start();
    let mut i: usize = 0;
    while i < events.len()
        invariant
            i <= events.len(),
            references(each(events@)) == read_from(reader@, each(events@), i as int),
        decreases events.len() - i,
    {
        assert(each(events@)[i as int] == events@[i as int]@);
        match reader.advance(&events[i]) {
            Ok(next) => {
                reader = next;
            },
            Err(error) => {
                return Err(error);
            },
        }
        i += 1;
    }
    reader.finish()
}

pub open spec fn invalid_block_list_response(stamp: StampView, error: AzureBlockListError)
    -> ResponseView {
    match error {
        AzureBlockListError::InvalidXmlDocument => error_response(
            stamp,
            400,
            "InvalidXmlDocument"@,
            "The specified XML is not syntactically valid."@,
        ),
        AzureBlockListError::InvalidBlockList => error_response(
            stamp,
            400,
            "InvalidBlockList"@,
            "The specified block list is invalid."@,
        ),
    }
}

/// Whether the identifiers of a list are Base64 for as many bytes each, and no identifier
/// is asked for from two places.
pub open spec fn consistent(list: ReferencesView) -> bool {
    &&& forall|i: int|
        0 <= i < list.len() ==> ((#[trigger] base64_bytes(list[i].0)) matches Some(id) && id.len()
            > 0 && id.len() == base64_bytes(list[0].0)->0.len())
    &&& forall|i: int, j: int|
        0 <= i < j < list.len() && (#[trigger] list[i]).0 == (#[trigger] list[j]).0 ==> list[i].1
            == list[j].1
}

/// The last of the first `i` entries for a key.
pub open spec fn last_upto(blocks: Seq<(Text, Seq<u8>)>, id: Text, i: int) -> Option<Seq<u8>>
    decreases i,
{
    if i <= 0 {
        None
    } else if blocks[i - 1].0 == id {
        Some(blocks[i - 1].1)
    } else {
        last_upto(blocks, id, i - 1)
    }
}

pub open spec fn committed_block(blocks: Seq<(Text, Seq<u8>)>, id: Text) -> Option<Seq<u8>> {
    last_upto(blocks, id, blocks.len() as int)
}

/// The content of the block that an entry asks for, where there is one.
pub open spec fn selected(
    entry: (Text, AzureBlockSelector),
    staged: Seq<(Text, Seq<u8>)>,
    committed: Seq<(Text, Seq<u8>)>,
) -> Option<Seq<u8>> {
    match entry.1 {
        AzureBlockSelector::Uncommitted => get(staged, entry.0),
        AzureBlockSelector::Committed => committed_block(committed, entry.0),
        AzureBlockSelector::Latest => match get(staged, entry.0) {
            Some(data) => Some(data),
            None => committed_block(committed, entry.0),
        },
    }
}

/// Whether an entry takes its block from the staged ones.
pub open spec fn takes_staged(
    entry: (Text, AzureBlockSelector),
    staged: Seq<(Text, Seq<u8>)>,
) -> bool {
    entry.1 == AzureBlockSelector::Uncommitted || entry.1 == AzureBlockSelector::Latest && get(
        staged,
        entry.0,
    ) is Some
}

/// The blocks that the entries from place `i` on ask for, or the first identifier that has
/// none.
pub open spec fn resolved_from(
    list: ReferencesView,
    staged: Seq<(Text, Seq<u8>)>,
    committed: Seq<(Text, Seq<u8>)>,
    i: int,
) -> Result<Seq<(Text, Seq<u8>)>, Text>
    decreases list.len() - i,
{
    if i >= list.len() {
        Ok(Seq::empty())
    } else {
        match selected(list[i], staged, committed) {
            None => Err(list[i].0),
            Some(data) => match resolved_from(list, staged, committed, i + 1) {
                Ok(rest) => Ok(seq![(list[i].0, data)] + rest),
                Err(id) => Err(id),
            },
        }
    }
}

pub open spec fn resolved(
    list: ReferencesView,
    staged: Seq<(Text, Seq<u8>)>,
    committed: Seq<(Text, Seq<u8>)>,
) -> Result<Seq<(Text, Seq<u8>)>, Text> {
    resolved_from(list, staged, committed, 0)
}

/// The staged blocks without those that the first `i` entries take.
pub open spec fn untaken_upto(
    list: ReferencesView,
    staged: Seq<(Text, Seq<u8>)>,
    i: int,
) -> Seq<(Text, Seq<u8>)>
    decreases i,
{
    if i <= 0 {
        staged
    } else if takes_staged(list[i - 1], staged) {
        without(untaken_upto(list, staged, i - 1), list[i - 1].0)
    } else {
        untaken_upto(list, staged, i - 1)
    }
}

pub open spec fn untaken(list: ReferencesView, staged: Seq<(Text, Seq<u8>)>) -> Seq<
    (Text, Seq<u8>),
> {
    untaken_upto(list, staged, list.len() as int)
}

/// The contents of the first `i` blocks in a row.
pub open spec fn content_upto(blocks: Seq<(Text, Seq<u8>)>, i: int) -> Seq<u8>
    decreases i,
{
    if i <= 0 {
        Seq::empty()
    } else {
        content_upto(blocks, i - 1) + blocks[i - 1].1
    }
}

pub open spec fn content(blocks: Seq<(Text, Seq<u8>)>) -> Seq<u8> {
    content_upto(blocks, blocks.len() as int)
}

fn check_consistent(list: &Vec<AzureBlockReference>) -> (r: bool)
    ensures
        r == consistent(each(list@)),
{
    let ghost all = each(list@);
    if list.len() == 0 {
        return true;
    }
    let expected: usize = match base64_decode(&list[0].id) {
        Some(id) => id.len(),
        None => {
            assert(base64_bytes(all[0].0) is None);
            return false;
        },
    };
    let mut i: usize = 0;
    while i < list.len()
        invariant
            i <= list.len(),
            list.len() > 0,
            all == each(list@),
            base64_bytes(all[0].0) is Some,
            base64_bytes(all[0].0)->0.len() == expected,
            forall|k: int|
                0 <= k < i ==> ((#[trigger] base64_bytes(all[k].0)) matches Some(id) && id.len()
                    > 0 && id.len() == expected),
            forall|k: int, l: int|
                0 <= k < l < i && (#[trigger] all[k]).0 == (#[trigger] all[l]).0 ==> all[k].1
                    == all[l].1,
        decreases list.len() - i,
    {
        assert(all[i as int] == list@[i as int]@);
        match base64_decode(&list[i].id) {
            Some(id) if id.len() > 0 && id.len() == expected => {},
            _ => {
                assert(!(base64_bytes(all[i as int].0) matches Some(id) && id.len() > 0 && id.len()
                    == expected));
                return false;
            },
        }
        let mut k: usize = 0;
        while k < i
            invariant
                k <= i < list.len(),
                all == each(list@),
                forall|m: int|
                    0 <= m < k && (#[trigger] all[m]).0 == all[i as int].0 ==> all[m].1
                        == all[i as int].1,
            decreases i - k,
        {
            assert(all[k as int] == list@[k as int]@);
            assert(all[i as int] == list@[i as int]@);
            if list[k].selector != list[i].selector && same(&list[k].id, &list[i].id) {
                assert(!consistent(all));
                return false;
            }
            k += 1;
        }
        i += 1;
    }
    true
}

fn find_committed<'a>(blocks: &'a Blocks, id: &str) -> (r: Option<&'a Vec<u8>>)
    ensures
        seen(r) == committed_block(blocks@, id@),
{
    let mut i: usize = blocks.items.len();
    while i > 0
        invariant
            i <= blocks.items.len(),
            committed_block(blocks@, id@) == last_upto(blocks@, id@, i as int),
        decreases i,
    {
        assert(blocks@[i - 1] == blocks.items@[i - 1]@);
        if same(&blocks.items[i - 1].0, id) {
            return Some(&blocks.items[i - 1].1);
        }
        i -= 1;
    }
    None
}

fn select<'a>(entry: &AzureBlockReference, staged: &'a Table<Vec<u8>>, committed: &'a Blocks) -> (r:
    Option<&'a Vec<u8>>)
    ensures
        seen(r) == selected(entry@, staged@, committed@),
{
    match entry.selector {
        AzureBlockSelector::Uncommitted => staged.get(&entry.id),
        AzureBlockSelector::Committed => find_committed(committed, &entry.id),
        AzureBlockSelector::Latest => match staged.get(&entry.id) {
            Some(data) => Some(data),
            None => find_committed(committed, &entry.id),
        },
    }
}

/// Finds the blocks that a list asks for; where one is missing, its identifier.
pub fn resolve(
    list: &Vec<AzureBlockReference>,
    staged: &Table<Vec<u8>>,
    committed: &Blocks,
) -> (r: Result<Blocks, String>)
    ensures
        settled(r) == resolved(each(list@), staged@, committed@),
{
    let ghost all = each(list@);
    let ghost whole = resolved(all, staged@, committed@);
    let mut out = Blocks { items: Vec::new() };
    let mut i: usize = 0;
    proof {
        each_empty::<(String, Vec<u8>)>();
        if whole is Ok {
            assert(out@ + whole->Ok_0 =~= whole->Ok_0);
        }
    }
    while i < list.len()
        invariant
            i <= list.len(),
            all == each(list@),
            whole == resolved(all, staged@, committed@),
            match (whole, resolved_from(all, staged@, committed@, i as int)) {
                (Ok(blocks), Ok(rest)) => out@ + rest == blocks,
                (Err(id), Err(missing)) => id == missing,
                _ => false,
            },
        decreases list.len() - i,
    {
        assert(all[i as int] == list@[i as int]@);
        match select(&list[i], staged, committed) {
            None => {
                return Err(list[i].id.clone());
            },
            Some(data) => {
                let block = (list[i].id.clone(), copy_bytes(data.as_slice()));
                let ghost before = out@;
                proof {
                    each_push(out.items@, block);
                }
                out.items.push(block);
                proof {
                    let rest = resolved_from(all, staged@, committed@, i + 1);
                    if rest is Ok {
                        assert(before + (seq![block@] + rest->Ok_0) =~= out@ + rest->Ok_0);
                    }
                }
            },
        }
        i += 1;
    }
    assert(out@ + Seq::<(Text, Seq<u8>)>::empty() =~= out@);
    Ok(out)
}

fn leave_untaken(list: &Vec<AzureBlockReference>, staged: &Table<Vec<u8>>) -> (r: Table<Vec<u8>>)
    ensures
        r@ == untaken(each(list@), staged@),
{
    let mut out = staged.copied();
    let mut i: usize = 0;
    while i < list.len()
        invariant
            i <= list.len(),
            out@ == untaken_upto(each(list@), staged@, i as int),
        decreases list.len() - i,
    {
        assert(each(list@)[i as int] == list@[i as int]@);
        let taken = match list[i].selector {
            AzureBlockSelector::Uncommitted => true,
            AzureBlockSelector::Committed => false,
            AzureBlockSelector::Latest => staged.has(&list[i].id),
        };
        if taken {
            out.remove(&list[i].id);
        }
        i += 1;
    }
    out
}

fn content_of(blocks: &Blocks) -> (r: Vec<u8>)
    ensures
        r@ == content(blocks@),
{
    let mut out: Vec<u8> = Vec::new();
    let mut i: usize = 0;
    while i < blocks.items.len()
        invariant
            i <= blocks.items.len(),
            out@ == content_upto(blocks@, i as int),
        decreases blocks.items.len() - i,
    {
        assert(blocks@[i as int] == blocks.items@[i as int]@);
        let mut data = copy_bytes(blocks.items[i].1.as_slice());
        out.append(&mut data);
        i += 1;
    }
    out
}

// ---------------------------------------------------------------------------
// Staged and committed blocks in storage

/// The block session of a blob: from memory where it is there, else as it was recorded. The
/// record is read in either case.
pub open spec fn load_block_session(key: Text, tape: TapeView) -> KnownView<
    Option<BlockSessionView>,
> {
    match known::<SessionSlot>(tape, EffectView::RecallSession(key)) {
        KnownView::Halt(step) => KnownView::Halt(step),
        KnownView::Got(recalled, tape) => match known::<SessionSlot>(
            tape,
            EffectView::LoadSession(key),
        ) {
            KnownView::Halt(step) => KnownView::Halt(step),
            KnownView::Got(loaded, tape) => KnownView::Got(
                match recalled {
                    Some(session) => Some(session),
                    None => loaded,
                },
                tape,
            ),
        },
    }
}

pub open spec fn session_or_new(found: Option<BlockSessionView>) -> BlockSessionView {
    match found {
        Some(session) => session,
        None => no_blocks(),
    }
}

/// The blocks that a blob was committed from: from memory where they are there, else as they
/// were recorded, and then kept in memory.
pub open spec fn load_committed_blocks(key: Text, tape: TapeView) -> KnownView<
    Seq<(Text, Seq<u8>)>,
> {
    match known::<BlocksSlot>(tape, EffectView::RecallBlocks(key)) {
        KnownView::Halt(step) => KnownView::Halt(step),
        KnownView::Got(Some(blocks), tape) => KnownView::Got(blocks, tape),
        KnownView::Got(None, tape) => match known::<BlocksSlot>(
            tape,
            EffectView::LoadBlocks(key),
        ) {
            KnownView::Halt(step) => KnownView::Halt(step),
            KnownView::Got(loaded, tape) => {
                let blocks = match loaded {
                    Some(blocks) => blocks,
                    None => Seq::empty(),
                };
                match known::<()>(tape, EffectView::RememberBlocks(key, blocks)) {
                    KnownView::Halt(step) => KnownView::Halt(step),
                    KnownView::Got(_, tape) => KnownView::Got(blocks, tape),
                }
            },
        },
    }
}

/// Records what a blob was committed from and which blocks are still staged for it.
pub open spec fn record_committed_block_session(
    key: Text,
    blocks: Seq<(Text, Seq<u8>)>,
    remaining: BlockSessionView,
    tape: TapeView,
) -> KnownView<()> {
    match known::<()>(tape, EffectView::RememberBlocks(key, blocks)) {
        KnownView::Halt(step) => KnownView::Halt(step),
        KnownView::Got(_, tape) => match known::<()>(tape, EffectView::SaveBlocks(key, blocks)) {
            KnownView::Halt(step) => KnownView::Halt(step),
            KnownView::Got(_, tape) => if remaining.blocks.len() == 0 {
                match known::<()>(tape, EffectView::ForgetSession(key)) {
                    KnownView::Halt(step) => KnownView::Halt(step),
                    KnownView::Got(_, tape) => known::<()>(tape, EffectView::DropSession(key)),
                }
            } else {
                match known::<()>(tape, EffectView::SaveSession(key, remaining)) {
                    KnownView::Halt(step) => KnownView::Halt(step),
                    KnownView::Got(_, tape) => known::<()>(
                        tape,
                        EffectView::RememberSession(key, remaining),
                    ),
                }
            },
        },
    }
}

// ---------------------------------------------------------------------------
// Requests

pub open spec fn invalid_block_id(stamp: StampView) -> ResponseView {
    error_response(
        stamp,
        400,
        "InvalidBlockId"@,
        "The specified block ID is invalid. The block ID must be Base64-encoded."@,
    )
}

/// How many bytes the identifier of a block is for, where it is Base64 for some and not too
/// many.
pub open spec fn id_size(decoded: Option<Seq<u8>>) -> Option<int> {
    match decoded {
        Some(id) if 0 < id.len() <= 64 => Some(id.len() as int),
        _ => None,
    }
}

/// Whether every staged block has an identifier for `n` bytes.
pub open spec fn same_id_length(staged: Seq<(Text, Seq<u8>)>, n: int) -> bool {
    forall|i: int|
        0 <= i < staged.len() ==> ((#[trigger] base64_bytes(staged[i].0)) matches Some(id)
            && id.len() == n)
}

/// Stages a block.
pub open spec fn put_block(
    cx: ContextView,
    account: Text,
    container: Text,
    blob_key: Text,
    tape: TapeView,
) -> StepView {
    match cx.req.param("blockid"@) {
        None => StepView::Reply(invalid_block_id(cx.stamp)),
        Some(block_id) => match id_size(base64_bytes(block_id)) {
            Some(n) => match asked::<Object>(
                tape,
                EffectView::GetObject(container, blob_key),
            ) {
                AskedView::Halt(step) => step,
                AskedView::Got(Ok(existing), tape) => match ensure_lease_allows(
                    cx.stamp,
                    cx.req,
                    existing,
                ) {
                    Err(refusal) => StepView::Reply(refusal),
                    Ok(_) => if conditions_match(cx.req, existing.etag) {
                        stage_block(cx, account, container, blob_key, block_id, n, tape)
                    } else {
                        StepView::Reply(condition_failed(cx.stamp))
                    },
                },
                AskedView::Got(Err(error), tape) => if error.kind == ErrorKind::KeyNotFound {
                    if cx.req.header("if-match"@) is Some {
                        StepView::Reply(condition_failed(cx.stamp))
                    } else {
                        stage_block(cx, account, container, blob_key, block_id, n, tape)
                    }
                } else if error.kind == ErrorKind::BucketNotFound {
                    StepView::Reply(container_not_found(cx.stamp))
                } else {
                    StepView::Fail(error.message)
                },
            },
            None => StepView::Reply(invalid_block_id(cx.stamp)),
        },
    }
}

/// Adds a block, whose identifier is for `n` bytes, to the session of a blob.
pub open spec fn stage_block(
    cx: ContextView,
    account: Text,
    container: Text,
    blob_key: Text,
    block_id: Text,
    n: int,
    tape: TapeView,
) -> StepView {
    let key = blob_state_key(account, container, blob_key);
    match load_block_session(key, tape) {
        KnownView::Halt(step) => step,
        KnownView::Got(found, tape) => {
            let session = session_or_new(found);
            if !same_id_length(session.blocks, n) {
                StepView::Reply(
                    error_response(
                        cx.stamp,
                        400,
                        "InvalidBlockId"@,
                        "All block IDs for a blob must have the same decoded length."@,
                    ),
                )
            } else {
                let staged = BlockSessionView {
                    blocks: with(session.blocks, block_id, cx.req.body),
                    ..session
                };
                match known::<()>(tape, EffectView::SaveSession(key, staged)) {
                    KnownView::Halt(step) => step,
                    KnownView::Got(_, tape) => match known::<()>(
                        tape,
                        EffectView::RememberSession(key, staged),
                    ) {
                        KnownView::Halt(step) => step,
                        KnownView::Got(_, _) => StepView::Reply(response(cx.stamp, 201)),
                    },
                }
            }
        },
    }
}

/// Commits a blob from a list of blocks.
pub open spec fn put_block_list(
    cx: ContextView,
    account: Text,
    container: Text,
    blob_key: Text,
    tape: TapeView,
) -> StepView {
    match utf8_text(cx.req.body) {
        None => StepView::Reply(
            invalid_block_list_response(cx.stamp, AzureBlockListError::InvalidXmlDocument),
        ),
        Some(document) => match parse_block_list(document) {
            Err(error) => StepView::Reply(invalid_block_list_response(cx.stamp, error)),
            Ok(list) => commit_block_list(cx, account, container, blob_key, list, tape),
        },
    }
}

/// Commits a blob from the entries of a block list.
pub open spec fn commit_block_list(
    cx: ContextView,
    account: Text,
    container: Text,
    blob_key: Text,
    list: ReferencesView,
    tape: TapeView,
) -> StepView {
    if !consistent(list) {
        StepView::Reply(
            invalid_block_list_response(cx.stamp, AzureBlockListError::InvalidBlockList),
        )
    } else {
        match write_condition(cx.stamp, cx.req) {
            Err(refusal) => StepView::Reply(refusal),
            Ok(condition) => match asked::<Object>(
                tape,
                EffectView::GetObject(container, blob_key),
            ) {
                AskedView::Halt(step) => step,
                AskedView::Got(Ok(existing), tape) => match known::<Bucket>(
                    tape,
                    EffectView::GetBucket(container),
                ) {
                    KnownView::Halt(step) => step,
                    KnownView::Got(bucket, tape) => match ensure_version_creating_overwrite_allowed(
                        cx.stamp,
                        cx.req,
                        existing,
                        azure_versioning_enabled(bucket),
                    ) {
                        Err(refusal) => StepView::Reply(refusal),
                        Ok(_) => if !conditions_match(cx.req, existing.etag) {
                            StepView::Reply(condition_failed(cx.stamp))
                        } else {
                            let observed = ConditionView::Etag(existing.etag);
                            commit_blocks(
                                cx,
                                account,
                                container,
                                blob_key,
                                list,
                                match condition {
                                    Some(condition) => condition,
                                    None => observed,
                                },
                                Some(existing),
                                tape,
                            )
                        },
                    },
                },
                AskedView::Got(Err(error), tape) => if error.kind == ErrorKind::KeyNotFound {
                    if cx.req.header("if-match"@) is Some {
                        StepView::Reply(condition_failed(cx.stamp))
                    } else {
                        commit_blocks(
                            cx,
                            account,
                            container,
                            blob_key,
                            list,
                            match condition {
                                Some(condition) => condition,
                                None => ConditionView::Missing,
                            },
                            None,
                            tape,
                        )
                    }
                } else if error.kind == ErrorKind::BucketNotFound {
                    StepView::Reply(container_not_found(cx.stamp))
                } else {
                    StepView::Fail(error.message)
                },
            },
        }
    }
}

/// The blob that committing blocks makes.
pub open spec fn committed_blob(
    cx: ContextView,
    blob_key: Text,
    blocks: Seq<(Text, Seq<u8>)>,
    existing: Option<ObjectView>,
) -> ObjectView {
    let object = with_blob_type(
        new_object(
            blob_key,
            content(blocks),
            content_type(cx.req),
            metadata_from_headers(cx.req),
            cx.stamp.now,
        ),
        "BlockBlob"@,
    );
    match existing {
        Some(existing) => with_lease_of(existing, object),
        None => object,
    }
}

/// Writes a blob from blocks where a condition holds, and takes the blocks that were used
/// out of the staged ones.
pub open spec fn commit_blocks(
    cx: ContextView,
    account: Text,
    container: Text,
    blob_key: Text,
    list: ReferencesView,
    condition: ConditionView,
    existing: Option<ObjectView>,
    tape: TapeView,
) -> StepView {
    let key = blob_state_key(account, container, blob_key);
    match load_block_session(key, tape) {
        KnownView::Halt(step) => step,
        KnownView::Got(found, tape) => match load_committed_blocks(key, tape) {
            KnownView::Halt(step) => step,
            KnownView::Got(committed, tape) => {
                let session = session_or_new(found);
                match resolved(list, session.blocks, committed) {
                    Err(id) => StepView::Reply(
                        error_response(
                            cx.stamp,
                            400,
                            "InvalidBlockList"@,
                            "The block list contains unknown block ID "@ + id + "."@,
                        ),
                    ),
                    Ok(blocks) => match known::<bool>(
                        tape,
                        EffectView::PutObjectIf(
                            container,
                            blob_key,
                            committed_blob(cx, blob_key, blocks, existing),
                            condition,
                        ),
                    ) {
                        KnownView::Halt(step) => step,
                        KnownView::Got(false, _) => StepView::Reply(condition_failed(cx.stamp)),
                        KnownView::Got(true, tape) => {
                            let remaining = BlockSessionView {
                                blocks: untaken(list, session.blocks),
                                ..session
                            };
                            match record_committed_block_session(key, blocks, remaining, tape) {
                                KnownView::Halt(step) => step,
                                KnownView::Got(_, tape) => match known::<Object>(
                                    tape,
                                    EffectView::GetObject(container, blob_key),
                                ) {
                                    KnownView::Halt(step) => step,
                                    KnownView::Got(stored, _) => StepView::Reply(
                                        written_response(cx.stamp, 201, stored).maybe_header(
                                            "x-ms-version-id"@,
                                            stored.version_id,
                                        ),
                                    ),
                                },
                            }
                        },
                    },
                }
            },
        },
    }
}

/// A reply that names the tag and the time of a blob that was written.
pub open spec fn written_response(stamp: StampView, code: u16, stored: ObjectView)
    -> ResponseView {
    response(stamp, code).header("etag"@, quoted(stored.etag)).header(
        "last-modified"@,
        http_date(stored.last_modified.secs, stored.last_modified.nanos),
    )
}

pub fn written_reply(stamp: &Stamp, code: u16, stored: &Object) -> (r: Response)
    ensures
        r@ == written_response(stamp@, code, stored@),
{
    let etag = quote(&stored.etag);
    let date = format_last_modified_at(&stored.last_modified);
    reply(stamp, code).header("etag", &etag).header("last-modified", &date)
}

/// The first `i` blocks of a listing.
pub open spec fn block_items_upto(blocks: Seq<(Text, Seq<u8>)>, i: int) -> Text
    decreases i,
{
    if i <= 0 {
        ""@
    } else {
        block_items_upto(blocks, i - 1) + "<Block><Name>"@ + xml(blocks[i - 1].0)
            + "</Name><Size>"@ + decimal(blocks[i - 1].1.len() as int) + "</Size></Block>"@
    }
}

pub open spec fn block_items(blocks: Seq<(Text, Seq<u8>)>) -> Text {
    block_items_upto(blocks, blocks.len() as int)
}

/// A listing of the committed blocks, the uncommitted ones, or both.
pub open spec fn block_list_xml(
    committed: Seq<(Text, Seq<u8>)>,
    uncommitted: Seq<(Text, Seq<u8>)>,
    show_committed: bool,
    show_uncommitted: bool,
) -> Text {
    "<?xml version=\"1.0\" encoding=\"utf-8\"?><BlockList>"@ + (if show_committed {
        "<CommittedBlocks>"@ + block_items(committed) + "</CommittedBlocks>"@
    } else {
        ""@
    }) + (if show_uncommitted {
        "<UncommittedBlocks>"@ + block_items(uncommitted) + "</UncommittedBlocks>"@
    } else {
        ""@
    }) + "</BlockList>"@
}

/// Lists the blocks of a blob.
pub open spec fn get_block_list(
    cx: ContextView,
    account: Text,
    container: Text,
    blob_key: Text,
    tape: TapeView,
) -> StepView {
    let selector = or_text(cx.req.param("blocklisttype"@), "committed"@);
    let key = blob_state_key(account, container, blob_key);
    if cx.req.param("snapshot"@) is Some || cx.req.param("versionid"@) is Some {
        StepView::Reply(
            error_response(
                cx.stamp,
                501,
                "FeatureNotSupported"@,
                "Snapshot and version-scoped block lists are not implemented by the emulator."@,
            ),
        )
    } else if selector != "committed"@ && selector != "uncommitted"@ && selector != "all"@ {
        StepView::Reply(
            error_response(
                cx.stamp,
                400,
                "InvalidQueryParameterValue"@,
                "The value for blocklisttype is invalid."@,
            ),
        )
    } else {
        match load_committed_blocks(key, tape) {
            KnownView::Halt(step) => step,
            KnownView::Got(committed, tape) => match load_block_session(key, tape) {
                KnownView::Halt(step) => step,
                KnownView::Got(session, tape) => match asked::<Object>(
                    tape,
                    EffectView::GetObject(container, blob_key),
                ) {
                    AskedView::Halt(step) => step,
                    AskedView::Got(Ok(existing), _) => StepView::Reply(
                        listed_blocks(cx, selector, committed, session, existing),
                    ),
                    AskedView::Got(Err(error), _) => if error.kind == ErrorKind::KeyNotFound {
                        StepView::Reply(
                            if selector == "committed"@ || session is None {
                                blob_not_found(cx.stamp)
                            } else {
                                block_listing(cx.stamp, selector, committed, session, None)
                            },
                        )
                    } else if error.kind == ErrorKind::BucketNotFound {
                        StepView::Reply(container_not_found(cx.stamp))
                    } else {
                        StepView::Fail(error.message)
                    },
                },
            },
        }
    }
}

/// The listing of the blocks of a blob that exists, unless something forbids it.
pub open spec fn listed_blocks(
    cx: ContextView,
    selector: Text,
    committed: Seq<(Text, Seq<u8>)>,
    session: Option<BlockSessionView>,
    existing: ObjectView,
) -> ResponseView {
    if blob_type(existing) != "BlockBlob"@ {
        error_response(
            cx.stamp,
            400,
            "InvalidBlobType"@,
            "The operation is not supported for this blob type."@,
        )
    } else if !conditions_match(cx.req, existing.etag) {
        condition_failed(cx.stamp)
    } else {
        match ensure_lease_allows(cx.stamp, cx.req, existing) {
            Err(refusal) => refusal,
            Ok(_) => block_listing(cx.stamp, selector, committed, session, Some(existing)),
        }
    }
}

/// The reply that lists blocks.
pub open spec fn block_listing(
    stamp: StampView,
    selector: Text,
    committed: Seq<(Text, Seq<u8>)>,
    session: Option<BlockSessionView>,
    existing: Option<ObjectView>,
) -> ResponseView {
    let show_committed = selector == "committed"@ || selector == "all"@;
    let show_uncommitted = selector == "uncommitted"@ || selector == "all"@;
    let uncommitted = sorted::<(String, Vec<u8>)>(session_or_new(session).blocks);
    let base = response(stamp, 200).content_type("application/xml"@).header(
        "x-ms-blob-content-length"@,
        decimal(
            match existing {
                Some(blob) => blob.size as int,
                None => 0,
            },
        ),
    );
    let described = match existing {
        Some(blob) => if committed.len() > 0 {
            base.header("etag"@, quoted(blob.etag)).header(
                "last-modified"@,
                http_date(blob.last_modified.secs, blob.last_modified.nanos),
            )
        } else {
            base
        },
        None => base,
    };
    described.text(block_list_xml(committed, uncommitted, show_committed, show_uncommitted))
}

impl AzureBlobAdapter {
    pub fn parse_block_list(xml: &str) -> (r: Result<
        Vec<AzureBlockReference>,
        AzureBlockListError,
    >)
        ensures
            match r {
                Ok(found) => parse_block_list(xml@) == Ok::<_, AzureBlockListError>(each(found@)),
                Err(error) => parse_block_list(xml@) == Err::<ReferencesView, _>(error),
            },
    {
        references_in(&read_xml(xml))
    }

    pub fn invalid_block_list_response(stamp: &Stamp, error: AzureBlockListError) -> (r: Response)
        ensures
            r@ == invalid_block_list_response(stamp@, error),
    {
        match error {
            AzureBlockListError::InvalidXmlDocument => refuse(
                stamp,
                400,
                "InvalidXmlDocument",
                "The specified XML is not syntactically valid.",
            ),
            AzureBlockListError::InvalidBlockList => refuse(
                stamp,
                400,
                "InvalidBlockList",
                "The specified block list is invalid.",
            ),
        }
    }

    fn block_items(blocks: &Vec<(String, Vec<u8>)>) -> (r: String)
        ensures
            r@ == block_items(each(blocks@)),
    {
        let mut out = "".to_owned();
        let mut i: usize = 0;
        while i < blocks.len()
            invariant
                i <= blocks.len(),
                out@ == block_items_upto(each(blocks@), i as int),
            decreases blocks.len() - i,
        {
            assert(each(blocks@)[i as int] == blocks@[i as int]@);
            out.append("<Block><Name>");
            out.append(&escape_xml(&blocks[i].0));
            out.append("</Name><Size>");
            out.append(&show_usize(blocks[i].1.len()));
            out.append("</Size></Block>");
            i += 1;
        }
        out
    }

    pub fn block_list_xml(
        committed: &Vec<(String, Vec<u8>)>,
        uncommitted: &Vec<(String, Vec<u8>)>,
        show_committed: bool,
        show_uncommitted: bool,
    ) -> (r: String)
        ensures
            r@ == block_list_xml(
                each(committed@),
                each(uncommitted@),
                show_committed,
                show_uncommitted,
            ),
    {
        let mut out = "<?xml version=\"1.0\" encoding=\"utf-8\"?><BlockList>".to_owned();
        let first = if show_committed {
            cat3("<CommittedBlocks>", &Self::block_items(committed), "</CommittedBlocks>")
        } else {
            "".to_owned()
        };
        let second = if show_uncommitted {
            cat3("<UncommittedBlocks>", &Self::block_items(uncommitted), "</UncommittedBlocks>")
        } else {
            "".to_owned()
        };
        out.append(&first);
        out.append(&second);
        out.append("</BlockList>");
        out
    }

    pub fn load_block_session<'a>(key: &str, tape: Tape<'a>) -> (r: Gained<'a, SessionSlot>)
        ensures
            r@ == load_block_session(key@, tape@),
    {
        let (recalled, tape) = match require::<SessionSlot>(
            tape,
            Effect::RecallSession(key.to_owned()),
        ) {
            Known::Halt(step) => return Gained::Halt(step),
            Known::Got(slot, tape) => (slot, tape),
        };
        let (loaded, tape) = match require::<SessionSlot>(
            tape,
            Effect::LoadSession(key.to_owned()),
        ) {
            Known::Halt(step) => return Gained::Halt(step),
            Known::Got(slot, tape) => (slot, tape),
        };
        let found = match (&recalled.found, &loaded.found) {
            (Some(session), _) => Some(session.copied()),
            (None, Some(session)) => Some(session.copied()),
            (None, None) => None,
        };
        Gained::Got(SessionSlot { found }, tape)
    }

    pub fn load_committed_blocks<'a>(key: &str, tape: Tape<'a>) -> (r: Gained<'a, Blocks>)
        ensures
            r@ == load_committed_blocks(key@, tape@),
    {
        let (recalled, tape) = match require::<BlocksSlot>(
            tape,
            Effect::RecallBlocks(key.to_owned()),
        ) {
            Known::Halt(step) => return Gained::Halt(step),
            Known::Got(slot, tape) => (slot, tape),
        };
        match &recalled.found {
            Some(blocks) => return Gained::Got(blocks.copied(), tape),
            None => {},
        }
        let (loaded, tape) = match require::<BlocksSlot>(tape, Effect::LoadBlocks(key.to_owned())) {
            Known::Halt(step) => return Gained::Halt(step),
            Known::Got(slot, tape) => (slot, tape),
        };
        let blocks = match &loaded.found {
            Some(blocks) => blocks.copied(),
            None => {
                proof {
                    each_empty::<(String, Vec<u8>)>();
                }
                Blocks { items: Vec::new() }
            },
        };
        match require::<()>(tape, Effect::RememberBlocks(key.to_owned(), blocks.copied())) {
            Known::Halt(step) => Gained::Halt(step),
            Known::Got(_, tape) => Gained::Got(blocks, tape),
        }
    }

    pub fn record_committed_block_session<'a>(
        key: &str,
        blocks: &Blocks,
        remaining: &BlockSession,
        tape: Tape<'a>,
    ) -> (r: Known<'a, ()>)
        ensures
            r@ == record_committed_block_session(key@, blocks@, remaining@, tape@),
    {
        let tape = match require::<()>(
            tape,
            Effect::RememberBlocks(key.to_owned(), blocks.copied()),
        ) {
            Known::Halt(step) => return Known::Halt(step),
            Known::Got(_, tape) => tape,
        };
        let tape = match require::<()>(tape, Effect::SaveBlocks(key.to_owned(), blocks.copied())) {
            Known::Halt(step) => return Known::Halt(step),
            Known::Got(_, tape) => tape,
        };
        if remaining.blocks.is_empty() {
            let tape = match require::<()>(tape, Effect::ForgetSession(key.to_owned())) {
                Known::Halt(step) => return Known::Halt(step),
                Known::Got(_, tape) => tape,
            };
            require::<()>(tape, Effect::DropSession(key.to_owned()))
        } else {
            let tape = match require::<()>(
                tape,
                Effect::SaveSession(key.to_owned(), remaining.copied()),
            ) {
                Known::Halt(step) => return Known::Halt(step),
                Known::Got(_, tape) => tape,
            };
            require::<()>(tape, Effect::RememberSession(key.to_owned(), remaining.copied()))
        }
    }

    fn session_or_new(slot: SessionSlot) -> (r: BlockSession)
        ensures
            r@ == session_or_new(slot@),
    {
        match slot.found {
            Some(session) => session,
            None => BlockSession::default(),
        }
    }

    fn same_id_length(staged: &Table<Vec<u8>>, n: usize) -> (r: bool)
        ensures
            r == same_id_length(staged@, n as int),
    {
        let mut i: usize = 0;
        while i < staged.entries.len()
            invariant
                i <= staged.entries.len(),
                forall|k: int|
                    0 <= k < i ==> ((#[trigger] base64_bytes(staged@[k].0)) matches Some(id)
                        && id.len() == n),
            decreases staged.entries.len() - i,
        {
            assert(staged@[i as int] == staged.entries@[i as int]@);
            match base64_decode(&staged.entries[i].0) {
                Some(id) if id.len() == n => {},
                _ => {
                    assert(!(base64_bytes(staged@[i as int].0) matches Some(id) && id.len() == n));
                    return false;
                },
            }
            i += 1;
        }
        true
    }

    /// How many bytes an identifier is for, from what its Base64 form gives.
    pub fn id_size(decoded: Option<Vec<u8>>) -> (r: Option<usize>)
        ensures
            match r {
                Some(n) => id_size(seen(decoded)) == Some(n as int),
                None => id_size(seen(decoded)) is None,
            },
    {
        match decoded {
            Some(id) if 0 < id.len() && id.len() <= 64 => Some(id.len()),
            _ => None,
        }
    }

    fn refuse_block_id(stamp: &Stamp) -> (r: Response)
        ensures
            r@ == invalid_block_id(stamp@),
    {
        refuse(
            stamp,
            400,
            "InvalidBlockId",
            "The specified block ID is invalid. The block ID must be Base64-encoded.",
        )
    }

    pub fn put_block(
        cx: &Context,
        account: &str,
        container: &str,
        blob_key: &str,
        tape: Tape<'_>,
    ) -> (r: Step)
        ensures
            r@ == put_block(cx@, account@, container@, blob_key@, tape@),
    {
        let block_id = match cx.req.query_param("blockid") {
            Some(id) => id,
            None => return Step::Reply(Self::refuse_block_id(&cx.stamp)),
        };
        let n: usize = match Self::id_size(base64_decode(block_id)) {
            Some(n) => n,
            None => return Step::Reply(Self::refuse_block_id(&cx.stamp)),
        };
        let (found, tape) = match ask::<Object>(
            tape,
            Effect::GetObject(container.to_owned(), blob_key.to_owned()),
        ) {
            Asked::Halt(step) => return step,
            Asked::Got(found, tape) => (found, tape),
        };
        match found {
            Ok(existing) => {
                match Self::ensure_lease_allows(&cx.stamp, &cx.req, existing) {
                    Err(refusal) => return Step::Reply(refusal),
                    Ok(()) => {},
                }
                if !Self::conditions_match_blob(&cx.req, existing) {
                    return Step::Reply(refuse_condition(&cx.stamp));
                }
            },
            Err(error) => {
                if error.kind == ErrorKind::KeyNotFound {
                    if cx.req.header("if-match").is_some() {
                        return Step::Reply(refuse_condition(&cx.stamp));
                    }
                } else if error.kind == ErrorKind::BucketNotFound {
                    return Step::Reply(refuse_container(&cx.stamp));
                } else {
                    return Step::Fail(error.message.clone());
                }
            },
        }
        Self::stage_block(cx, account, container, blob_key, block_id, n, tape)
    }

    fn stage_block(
        cx: &Context,
        account: &str,
        container: &str,
        blob_key: &str,
        block_id: &str,
        n: usize,
        tape: Tape<'_>,
    ) -> (r: Step)
        ensures
            r@ == stage_block(
                cx@,
                account@,
                container@,
                blob_key@,
                block_id@,
                n as int,
                tape@,
            ),
    {
        let key = Self::blob_state_key(account, container, blob_key);
        let (slot, tape) = match Self::load_block_session(&key, tape) {
            Gained::Halt(step) => return step,
            Gained::Got(slot, tape) => (slot, tape),
        };
        let mut session = Self::session_or_new(slot);
        if !Self::same_id_length(&session.blocks, n) {
            return Step::Reply(
                refuse(
                    &cx.stamp,
                    400,
                    "InvalidBlockId",
                    "All block IDs for a blob must have the same decoded length.",
                ),
            );
        }
        session.blocks.insert(block_id, copy_bytes(cx.req.body.as_slice()));
        let tape = match require::<()>(tape, Effect::SaveSession(key.clone(), session.copied())) {
            Known::Halt(step) => return step,
            Known::Got(_, tape) => tape,
        };
        match require::<()>(tape, Effect::RememberSession(key, session)) {
            Known::Halt(step) => step,
            Known::Got(_, _) => Step::Reply(reply(&cx.stamp, 201)),
        }
    }

    pub fn put_block_list(
        cx: &Context,
        account: &str,
        container: &str,
        blob_key: &str,
        tape: Tape<'_>,
    ) -> (r: Step)
        ensures
            r@ == put_block_list(cx@, account@, container@, blob_key@, tape@),
    {
        let document = match text_of(cx.req.body.as_slice()) {
            Some(document) => document,
            None => return Step::Reply(
                Self::invalid_block_list_response(
                    &cx.stamp,
                    AzureBlockListError::InvalidXmlDocument,
                ),
            ),
        };
        match Self::parse_block_list(&document) {
            Ok(list) => Self::commit_block_list(cx, account, container, blob_key, &list, tape),
            Err(error) => Step::Reply(Self::invalid_block_list_response(&cx.stamp, error)),
        }
    }

    /// Commits a blob from the entries of a block list.
    pub fn commit_block_list(
        cx: &Context,
        account: &str,
        container: &str,
        blob_key: &str,
        list: &Vec<AzureBlockReference>,
        tape: Tape<'_>,
    ) -> (r: Step)
        ensures
            r@ == commit_block_list(cx@, account@, container@, blob_key@, each(list@), tape@),
    {
        if !check_consistent(list) {
            return Step::Reply(
                Self::invalid_block_list_response(&cx.stamp, AzureBlockListError::InvalidBlockList),
            );
        }
        let condition = match Self::write_condition(&cx.stamp, &cx.req) {
            Ok(condition) => condition,
            Err(refusal) => return Step::Reply(refusal),
        };
        let (found, tape) = match ask::<Object>(
            tape,
            Effect::GetObject(container.to_owned(), blob_key.to_owned()),
        ) {
            Asked::Halt(step) => return step,
            Asked::Got(found, tape) => (found, tape),
        };
        match found {
            Ok(existing) => {
                let (bucket, tape) = match require::<Bucket>(
                    tape,
                    Effect::GetBucket(container.to_owned()),
                ) {
                    Known::Halt(step) => return step,
                    Known::Got(bucket, tape) => (bucket, tape),
                };
                match Self::ensure_version_creating_overwrite_allowed(
                    &cx.stamp,
                    &cx.req,
                    existing,
                    Self::azure_versioning_enabled(bucket),
                ) {
                    Err(refusal) => return Step::Reply(refusal),
                    Ok(()) => {},
                }
                if !Self::conditions_match_blob(&cx.req, existing) {
                    return Step::Reply(refuse_condition(&cx.stamp));
                }
                let condition = match condition {
                    Some(condition) => condition,
                    None => ObjectCondition::Etag(existing.etag.clone()),
                };
                Self::commit_blocks(
                    cx,
                    account,
                    container,
                    blob_key,
                    list,
                    condition,
                    Some(existing),
                    tape,
                )
            },
            Err(error) => {
                if error.kind == ErrorKind::KeyNotFound {
                    if cx.req.header("if-match").is_some() {
                        return Step::Reply(refuse_condition(&cx.stamp));
                    }
                    let condition = match condition {
                        Some(condition) => condition,
                        None => ObjectCondition::Missing,
                    };
                    Self::commit_blocks(
                        cx,
                        account,
                        container,
                        blob_key,
                        list,
                        condition,
                        None,
                        tape,
                    )
                } else if error.kind == ErrorKind::BucketNotFound {
                    Step::Reply(refuse_container(&cx.stamp))
                } else {
                    Step::Fail(error.message.clone())
                }
            },
        }
    }

    fn commit_blocks(
        cx: &Context,
        account: &str,
        container: &str,
        blob_key: &str,
        list: &Vec<AzureBlockReference>,
        condition: ObjectCondition,
        existing: Option<&Object>,
        tape: Tape<'_>,
    ) -> (r: Step)
        ensures
            r@ == commit_blocks(
                cx@,
                account@,
                container@,
                blob_key@,
                each(list@),
                condition@,
                seen(existing),
                tape@,
            ),
    {
        let key = Self::blob_state_key(account, container, blob_key);
        let (slot, tape) = match Self::load_block_session(&key, tape) {
            Gained::Halt(step) => return step,
            Gained::Got(slot, tape) => (slot, tape),
        };
        let session = Self::session_or_new(slot);
        let (committed, tape) = match Self::load_committed_blocks(&key, tape) {
            Gained::Halt(step) => return step,
            Gained::Got(blocks, tape) => (blocks, tape),
        };
        let blocks = match resolve(list, &session.blocks, &committed) {
            Ok(blocks) => blocks,
            Err(id) => {
                let message = cat3("The block list contains unknown block ID ", &id, ".");
                return Step::Reply(refuse(&cx.stamp, 400, "InvalidBlockList", &message));
            },
        };
        let mut object = Object::new_with_metadata(
            blob_key.to_owned(),
            content_of(&blocks),
            Self::content_type(&cx.req),
            Self::metadata_from_headers(&cx.req),
            cx.stamp.now,
        );
        Self::set_blob_type(&mut object, "BlockBlob");
        match existing {
            Some(existing) => Self::preserve_active_lease(existing, &mut object),
            None => {},
        }
        let (written, tape) = match require::<bool>(
            tape,
            Effect::PutObjectIf(container.to_owned(), blob_key.to_owned(), object, condition),
        ) {
            Known::Halt(step) => return step,
            Known::Got(written, tape) => (*written, tape),
        };
        if !written {
            return Step::Reply(refuse_condition(&cx.stamp));
        }
        let left = leave_untaken(list, &session.blocks);
        let remaining = BlockSession {
            blocks: left,
            content_type: session.content_type,
            metadata: session.metadata,
        };
        let tape = match Self::record_committed_block_session(&key, &blocks, &remaining, tape) {
            Known::Halt(step) => return step,
            Known::Got(_, tape) => tape,
        };
        match require::<Object>(
            tape,
            Effect::GetObject(container.to_owned(), blob_key.to_owned()),
        ) {
            Known::Halt(step) => step,
            Known::Got(stored, _) => Step::Reply(
                written_reply(&cx.stamp, 201, stored).maybe_header(
                    "x-ms-version-id",
                    crate::text::lend(&stored.version_id),
                ),
            ),
        }
    }

    pub fn get_block_list(
        cx: &Context,
        account: &str,
        container: &str,
        blob_key: &str,
        tape: Tape<'_>,
    ) -> (r: Step)
        ensures
            r@ == get_block_list(cx@, account@, container@, blob_key@, tape@),
    {
        if cx.req.has_query_param("snapshot") || cx.req.has_query_param("versionid") {
            return Step::Reply(
                refuse(
                    &cx.stamp,
                    501,
                    "FeatureNotSupported",
                    "Snapshot and version-scoped block lists are not implemented by the emulator.",
                ),
            );
        }
        let selector = or_else(cx.req.query_param("blocklisttype"), "committed");
        if !same(selector, "committed") && !same(selector, "uncommitted") && !same(
            selector,
            "all",
        ) {
            return Step::Reply(
                refuse(
                    &cx.stamp,
                    400,
                    "InvalidQueryParameterValue",
                    "The value for blocklisttype is invalid.",
                ),
            );
        }
        let key = Self::blob_state_key(account, container, blob_key);
        let (committed, tape) = match Self::load_committed_blocks(&key, tape) {
            Gained::Halt(step) => return step,
            Gained::Got(blocks, tape) => (blocks, tape),
        };
        let (slot, tape) = match Self::load_block_session(&key, tape) {
            Gained::Halt(step) => return step,
            Gained::Got(slot, tape) => (slot, tape),
        };
        let found = match ask::<Object>(
            tape,
            Effect::GetObject(container.to_owned(), blob_key.to_owned()),
        ) {
            Asked::Halt(step) => return step,
            Asked::Got(found, _) => found,
        };
        match found {
            Ok(existing) => {
                if !same(Self::blob_type(existing), "BlockBlob") {
                    return Step::Reply(
                        refuse(
                            &cx.stamp,
                            400,
                            "InvalidBlobType",
                            "The operation is not supported for this blob type.",
                        ),
                    );
                }
                if !Self::conditions_match_blob(&cx.req, existing) {
                    return Step::Reply(refuse_condition(&cx.stamp));
                }
                match Self::ensure_lease_allows(&cx.stamp, &cx.req, existing) {
                    Err(refusal) => Step::Reply(refusal),
                    Ok(()) => Step::Reply(
                        Self::block_listing(&cx.stamp, selector, &committed, slot, Some(existing)),
                    ),
                }
            },
            Err(error) => {
                if error.kind == ErrorKind::KeyNotFound {
                    if same(selector, "committed") || slot.found.is_none() {
                        Step::Reply(refuse_blob(&cx.stamp))
                    } else {
                        Step::Reply(
                            Self::block_listing(&cx.stamp, selector, &committed, slot, None),
                        )
                    }
                } else if error.kind == ErrorKind::BucketNotFound {
                    Step::Reply(refuse_container(&cx.stamp))
                } else {
                    Step::Fail(error.message.clone())
                }
            },
        }
    }

    fn block_listing(
        stamp: &Stamp,
        selector: &str,
        committed: &Blocks,
        slot: SessionSlot,
        existing: Option<&Object>,
    ) -> (r: Response)
        ensures
            r@ == block_listing(stamp@, selector@, committed@, slot@, seen(existing)),
    {
        let all = same(selector, "all");
        let show_committed = same(selector, "committed") || all;
        let show_uncommitted = same(selector, "uncommitted") || all;
        let uncommitted = sort(Self::session_or_new(slot).blocks.entries);
        let size: u64 = match existing {
            Some(blob) => blob.size,
            None => 0,
        };
        let base = reply(stamp, 200).content_type("application/xml").header(
            "x-ms-blob-content-length",
            &show(size),
        );
        let described = match existing {
            Some(blob) => if committed.items.len() > 0 {
                let etag = quote(&blob.etag);
                let date = format_last_modified_at(&blob.last_modified);
                base.header("etag", &etag).header("last-modified", &date)
            } else {
                base
            },
            None => base,
        };
        described.text(
            &Self::block_list_xml(
                &committed.items,
                &uncommitted,
                show_committed,
                show_uncommitted,
            ),
        )
    }
}

} // verus!
