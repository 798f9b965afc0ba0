//! The language server without its wire: document tracking, and the code actions that carry the
//! conversions.
//!
//! Actions are advertised without an edit and filled in when one is picked. Editors refresh code
//! actions as the cursor moves, so computing every conversion up front would re-convert the whole
//! file on every cursor movement; resolving lazily converts only what was chosen.

use vstd::prelude::*;
use vstd::string::*;

use crate::cli::known_ids;
use crate::config::{
    enabled, known, lemma_enabled_never_empty, listed, normalized, scoped, Settings,
};
use crate::convert::{
    convert, decoded, decoded_text, encoded, lemma_direction_round_trips, lemma_round_trip,
    survives, Direction, Source,
};
use crate::document::{
    file_of, file_path, full_range, is_empty, last_line,
    lemma_full_range_covers_everything, slice, sliced, utf16_len, whole, Documents, Range,
};
use crate::json::json_of;
use crate::tables::{
    all_codepages, all_ids, find, found, lemma_codepages_well_formed, lemma_found, Codepage,
};
use crate::text::{join, joined, str_eq};

verus! {

/// The name the server goes by.
pub const SERVER_NAME: &'static str = "ebcdic-lsp";

/// The kind of every action on offer.
pub const ACTION_KIND: &'static str = "refactor.rewrite";

/// The error code for parameters that cannot be read.
pub const INVALID_PARAMS: i32 = -32602;

/// The error code for a method that is not supported.
pub const METHOD_NOT_FOUND: i32 = -32601;

// ---------------------------------------------------------------------------------------------
// Messages
// ---------------------------------------------------------------------------------------------
/// What a request asks for.
#[derive(Debug, Clone, Copy, PartialEq, Eq, Structural)]
pub enum RequestMethod {
    CodeAction,
    ResolveCodeAction,
    Unsupported,
}

impl RequestMethod {
    /// What the method called `name` asks for.
    pub open spec fn named(name: Seq<char>) -> RequestMethod {
        if name == "textDocument/codeAction"@ {
            RequestMethod::CodeAction
        } else if name == "codeAction/resolve"@ {
            RequestMethod::ResolveCodeAction
        } else {
            RequestMethod::Unsupported
        }
    }

    /// Tells what the method called `name` asks for.
    pub fn from_name(name: &str) -> (method: Self)
        ensures
            method == RequestMethod::named(name@),
    {
        if str_eq(name, "textDocument/codeAction") {
            RequestMethod::CodeAction
        } else if str_eq(name, "codeAction/resolve") {
            RequestMethod::ResolveCodeAction
        } else {
            RequestMethod::Unsupported
        }
    }
}

/// An error to answer a request with.
#[derive(Debug)]
pub struct Refusal {
    pub code: i32,
    pub message: String,
}

/// What to answer to a request for a method that is not supported.
pub fn unsupported_method(name: &str) -> (refusal: Refusal)
    ensures
        refusal.code == METHOD_NOT_FOUND,
        refusal.message@ == "unsupported method: "@ + name@,
{
    let mut message = "unsupported method: ".to_owned();
    message.append(name);
    Refusal { code: METHOD_NOT_FOUND, message }
}

/// What to answer to a request whose parameters could not be read, given what was wrong with them.
pub fn invalid_params(error: String) -> (refusal: Refusal)
    ensures
        refusal.code == INVALID_PARAMS,
        refusal.message == error,
{
    Refusal { code: INVALID_PARAMS, message: error }
}

/// What a notification is about.
#[derive(Debug, Clone, Copy, PartialEq, Eq, Structural)]
pub enum NotificationMethod {
    DidOpen,
    DidChange,
    DidClose,
    DidChangeConfiguration,
    Other,
}

impl NotificationMethod {
    /// What the notification called `name` is about.
    pub open spec fn named(name: Seq<char>) -> NotificationMethod {
        if name == "textDocument/didOpen"@ {
            NotificationMethod::DidOpen
        } else if name == "textDocument/didChange"@ {
            NotificationMethod::DidChange
        } else if name == "textDocument/didClose"@ {
            NotificationMethod::DidClose
        } else if name == "workspace/didChangeConfiguration"@ {
            NotificationMethod::DidChangeConfiguration
        } else {
            NotificationMethod::Other
        }
    }

    /// Tells what the notification called `name` is about.
    pub fn from_name(name: &str) -> (method: Self)
        ensures
            method == NotificationMethod::named(name@),
    {
        if str_eq(name, "textDocument/didOpen") {
            NotificationMethod::DidOpen
        } else if str_eq(name, "textDocument/didChange") {
            NotificationMethod::DidChange
        } else if str_eq(name, "textDocument/didClose") {
            NotificationMethod::DidClose
        } else if str_eq(name, "workspace/didChangeConfiguration") {
            NotificationMethod::DidChangeConfiguration
        } else {
            NotificationMethod::Other
        }
    }
}

/// A notification, read.
pub enum Event<'a> {
    Opened { uri: String, text: String },
    /// The texts of the changes, in order. Each carries the entire document.
    Changed { uri: String, texts: Vec<String> },
    Closed { uri: String },
    Configured { settings: &'a serde_json::Value },
}

// ---------------------------------------------------------------------------------------------
// Actions
// ---------------------------------------------------------------------------------------------
/// Payload attached to an unresolved code action, so that it can be resolved without re-deriving
/// anything. The document URI must ride along: a request to resolve carries the action back, not
/// the document it came from.
#[derive(Debug)]
pub struct ActionData {
    pub uri: String,
    pub codepage: String,
    pub direction: String,
    pub range: Range,
    /// True when the action applies to the whole document because nothing was selected.
    pub whole_document: bool,
}

/// What [`ActionData`] say.
pub ghost struct Choice {
    pub uri: Seq<char>,
    pub codepage: Seq<char>,
    pub direction: Seq<char>,
    pub range: Range,
    pub whole_document: bool,
}

impl View for ActionData {
    type V = Choice;

    open spec fn view(&self) -> Choice {
        Choice {
            uri: self.uri@,
            codepage: self.codepage@,
            direction: self.direction@,
            range: self.range,
            whole_document: self.whole_document,
        }
    }
}

/// A code action on offer, its edit still to be worked out.
#[derive(Debug)]
pub struct CodeAction {
    pub title: String,
    pub kind: &'static str,
    pub data: ActionData,
}

/// What a [`CodeAction`] says.
pub ghost struct Offer {
    pub title: Seq<char>,
    pub kind: Seq<char>,
    pub data: Choice,
}

impl View for CodeAction {
    type V = Offer;

    open spec fn view(&self) -> Offer {
        Offer { title: self.title@, kind: self.kind@, data: self.data@ }
    }
}

/// What a list of code actions says.
pub open spec fn action_views(actions: Seq<CodeAction>) -> Seq<Offer> {
    actions.map_values(|action: CodeAction| action@)
}

/// The edit that a picked action makes.
#[derive(Debug)]
pub struct Edit {
    pub uri: String,
    pub range: Range,
    pub new_text: String,
}

/// What an [`Edit`] says.
pub ghost struct Change {
    pub uri: Seq<char>,
    pub range: Range,
    pub new_text: Seq<char>,
}

impl View for Edit {
    type V = Change;

    open spec fn view(&self) -> Change {
        Change { uri: self.uri@, range: self.range, new_text: self.new_text@ }
    }
}

/// What an optional edit says.
pub open spec fn edit_view(edit: Option<Edit>) -> Option<Change> {
    match edit {
        Some(e) => Some(e@),
        None => None,
    }
}

// ---------------------------------------------------------------------------------------------
// The server
// ---------------------------------------------------------------------------------------------
/// What the server knows: the open documents and the ids of the codepages asked for.
pub ghost struct State {
    pub documents: Map<Seq<char>, Seq<char>>,
    pub requested: Seq<Seq<char>>,
}

impl State {
    /// What a request about `range` of a document is about: all of it where nothing is selected.
    pub open spec fn target(self, uri: Seq<char>, range: Range) -> Range {
        if range.start == range.end {
            whole(self.documents[uri])
        } else {
            range
        }
    }

    /// Whether there is anything to convert there. An empty document has nothing, and offering
    /// actions that do nothing on every empty buffer would be pure noise.
    pub open spec fn has_target(self, uri: Seq<char>, range: Range) -> bool {
        &&& self.documents.dom().contains(uri)
        &&& sliced(self.documents[uri], self.target(uri, range)) matches Some(text)
        &&& text.len() > 0
    }

    /// The action for one codepage and direction.
    pub open spec fn offer(
        self,
        uri: Seq<char>,
        range: Range,
        page: Codepage,
        direction: Direction,
    ) -> Offer {
        Offer {
            title: direction.title_text(page.id@),
            kind: ACTION_KIND@,
            data: Choice {
                uri,
                codepage: page.id@,
                direction: direction.name(),
                range: self.target(uri, range),
                whole_document: range.start == range.end,
            },
        }
    }

    /// The actions on offer: for each enabled codepage, decoding and then encoding.
    pub open spec fn offers(self, uri: Seq<char>, range: Range) -> Seq<Offer> {
        if self.has_target(uri, range) {
            let pages = enabled(self.requested);
            Seq::new(
                2 * pages.len(),
                |i: int|
                    self.offer(
                        uri,
                        range,
                        pages[i / 2],
                        if i % 2 == 0 {
                            Direction::EbcdicToAscii
                        } else {
                            Direction::AsciiToEbcdic
                        },
                    ),
            )
        } else {
            Seq::empty()
        }
    }

    /// Whether the codepage of `data` is on offer and its document open.
    pub open spec fn can_resolve(self, data: Choice) -> bool {
        &&& Direction::named(data.direction) is Some
        &&& found(enabled(self.requested), data.codepage) is Some
        &&& self.documents.dom().contains(data.uri)
    }

    /// The file whose bytes a picked action converts, if it converts any: decoding a whole
    /// document starts from the file on disk where there is one.
    pub open spec fn file_for(self, data: Choice) -> Option<Seq<char>> {
        if self.can_resolve(data) && Direction::named(data.direction) == Some(
            Direction::EbcdicToAscii,
        ) && data.whole_document {
            file_of(data.uri)
        } else {
            None
        }
    }

    /// What a picked action turns its range into, given the bytes of its file where it has one
    /// that could be read.
    pub open spec fn new_text(self, data: Choice, disk: Option<Seq<u8>>) -> Option<Seq<char>> {
        let page = found(enabled(self.requested), data.codepage)->0;
        match disk {
            Some(bytes) if self.file_for(data) is Some => Some(decoded(bytes, page)),
            _ => match sliced(self.documents[data.uri], data.range) {
                Some(text) => match Direction::named(data.direction)->0 {
                    Direction::EbcdicToAscii => Some(decoded_text(text, page)),
                    Direction::AsciiToEbcdic => Some(encoded(text, page)),
                },
                None => None,
            },
        }
    }

    /// The edit that a picked action makes, if it makes one.
    pub open spec fn resolved(self, data: Choice, disk: Option<Seq<u8>>) -> Option<Change> {
        if self.can_resolve(data) {
            match self.new_text(data, disk) {
                Some(new_text) => Some(Change { uri: data.uri, range: data.range, new_text }),
                None => None,
            }
        } else {
            None
        }
    }

    /// What a notification changes. Documents are synchronised in full, so the last change
    /// carries the entire document.
    pub open spec fn after(self, event: Event<'_>) -> State {
        match event {
            Event::Opened { uri, text } => State {
                documents: self.documents.insert(uri@, text@),
                ..self
            },
            Event::Changed { uri, texts } => if texts@.len() == 0 {
                self
            } else {
                State { documents: self.documents.insert(uri@, texts@.last()@), ..self }
            },
            Event::Closed { uri } => State { documents: self.documents.remove(uri@), ..self },
            Event::Configured { settings } => State {
                requested: listed(scoped(json_of(*settings))),
                ..self
            },
        }
    }
}

/// What an optional list of bytes holds.
pub open spec fn bytes_view(bytes: Option<Vec<u8>>) -> Option<Seq<u8>> {
    match bytes {
        Some(b) => Some(b@),
        None => None,
    }
}

/// The server.
pub struct Server {
    pub documents: Documents,
    pub settings: Settings,
}

impl View for Server {
    type V = State;

    open spec fn view(&self) -> State {
        State { documents: self.documents@, requested: self.settings.requested() }
    }
}

/// The settings to start with: those that the editor sent, if any.
pub fn initial_settings(options: Option<&serde_json::Value>) -> (settings: Settings)
    ensures
        settings.requested() == match options {
            Some(value) => listed(scoped(json_of(*value))),
            None => Seq::empty(),
        },
{
    match options {
        Some(value) => Settings::from_value(value),
        None => Settings::default(),
    }
}

impl Server {
    /// A server with no document open.
    pub fn new(settings: Settings) -> (server: Self)
        ensures
            server@.documents == Map::<Seq<char>, Seq<char>>::empty(),
            server@.requested == settings.requested(),
    {
        Server { documents: Documents::new(), settings }
    }

    /// Takes note of what the editor reports.
    pub fn handle_notification(&mut self, event: Event<'_>)
        ensures
            final(self)@ == old(self)@.after(event),
    {
        match event {
            Event::Opened { uri, text } => {
                self.documents.open(uri.as_str(), text);
            },
            Event::Changed { uri, mut texts } => {
                let ghost all = texts@;
                match texts.pop() {
                    Some(text) => {
                        assert(text == all.last());
                        self.documents.update(uri.as_str(), text);
                    },
                    None => {},
                }
            },
            Event::Closed { uri } => {
                self.documents.close(uri.as_str());
            },
            Event::Configured { settings } => {
                self.settings = Settings::from_value(settings);
            },
        }
    }

    /// Build one unresolved action per enabled codepage and direction.
    pub fn code_actions(&self, uri: &str, range: Range) -> (actions: Vec<CodeAction>)
        ensures
            action_views(actions@) == self@.offers(uri@, range),
    {
        let mut actions: Vec<CodeAction> = Vec::new();
        assert(action_views(actions@) =~= Seq::<Offer>::empty());
        let text = match self.documents.get(uri) {
            Some(text) => text,
            None => {
                return actions;
            },
        };
        let whole_document = is_empty(range);
        let target = if whole_document {
            full_range(text)
        } else {
            range
        };
        assert(target == self@.target(uri@, range));
        match slice(text, target) {
            Some(part) => {
                if part.is_empty() {
                    return actions;
                }
            },
            None => {
                return actions;
            },
        }
        assert(self@.has_target(uri@, range));
        let pages = self.settings.enabled_codepages();
        let mut i: usize = 0;
        while i < pages.len()
            invariant
                i <= pages@.len(),
                pages@ == enabled(self@.requested),
                self@.has_target(uri@, range),
                target == self@.target(uri@, range),
                whole_document == (range.start == range.end),
                action_views(actions@) == self@.offers(uri@, range).take(2 * i),
            decreases pages@.len() - i,
        {
            let ghost before = action_views(actions@);
            let ghost offers = self@.offers(uri@, range);
            let decode = offer(uri, target, whole_document, &pages[i], Direction::EbcdicToAscii);
            let encode = offer(uri, target, whole_document, &pages[i], Direction::AsciiToEbcdic);
            proof {
                assert((2 * i) / 2 == i && (2 * i) % 2 == 0);
                assert((2 * i + 1) / 2 == i && (2 * i + 1) % 2 == 1);
                assert(offers[2 * i] == decode@);
                assert(offers[2 * i + 1] == encode@);
            }
            let ghost decoding = decode@;
            let ghost encoding = encode@;
            actions.push(decode);
            assert(action_views(actions@) == before.push(decoding));
            actions.push(encode);
            assert(action_views(actions@) == before.push(decoding).push(encoding));
            i += 1;
            assert(action_views(actions@) =~= offers.take(2 * i));
        }
        assert(self@.offers(uri@, range).take(2 * pages@.len() as int) == self@.offers(uri@, range));
        actions
    }

    /// Finds an enabled codepage.
    pub fn codepage(&self, id: &str) -> (page: Option<Codepage>)
        ensures
            page == found(enabled(self@.requested), id@),
    {
        find(&self.settings.enabled_codepages(), id)
    }

    /// The file to read before resolving a picked action, if there is one.
    ///
    /// Reading the file from disk for a whole-document EBCDIC decode is the crux of this server. A
    /// genuine EBCDIC file is not valid UTF-8, so the editor has already replaced its invalid
    /// sequences with U+FFFD; converting the buffer would convert that damage instead of the data.
    /// Selections have no byte range to read, since the mapping from buffer positions back to file
    /// offsets is not recoverable once bytes have been replaced, so they use the buffer text.
    pub fn file_to_read(&self, data: &ActionData) -> (path: Option<String>)
        ensures
            match path {
                Some(p) => self@.file_for(data@) == Some(p@),
                None => self@.file_for(data@) is None,
            },
    {
        match Direction::from_str(data.direction.as_str()) {
            Some(Direction::EbcdicToAscii) => {},
            _ => {
                return None;
            },
        }
        if !data.whole_document || self.codepage(data.codepage.as_str()).is_none()
            || self.documents.get(data.uri.as_str()).is_none() {
            return None;
        }
        file_path(data.uri.as_str())
    }

    /// Decide what to feed the converter: the bytes of the file where there are any, and else the
    /// text in the buffer.
    fn source_for<'a>(
        &self,
        data: &ActionData,
        text: &'a str,
        disk: Option<Vec<u8>>,
    ) -> (source: Option<Source<'a>>)
        requires
            self@.can_resolve(data@),
            text@ == self@.documents[data@.uri],
        ensures
            match source {
                Some(Source::Bytes(bytes)) => self@.file_for(data@) is Some && bytes_view(disk)
                    == Some(bytes@),
                Some(Source::Text(part)) => (disk is None || self@.file_for(data@) is None)
                    && sliced(text@, data@.range) == Some(part@),
                None => (disk is None || self@.file_for(data@) is None) && sliced(
                    text@,
                    data@.range,
                ) is None,
            },
    {
        if self.file_to_read(data).is_some() {
            if let Some(bytes) = disk {
                return Some(Source::Bytes(bytes));
            }
        }
        match slice(text, data.range) {
            Some(part) => Some(Source::Text(part)),
            None => None,
        }
    }

    /// Compute the edit for the action the user actually picked, given the bytes of the file that
    /// [`Server::file_to_read`] names, where they could be read.
    pub fn resolve(&self, data: &ActionData, disk: Option<Vec<u8>>) -> (edit: Option<Edit>)
        ensures
            edit_view(edit) == self@.resolved(data@, bytes_view(disk)),
    {
        let direction = match Direction::from_str(data.direction.as_str()) {
            Some(direction) => direction,
            None => {
                return None;
            },
        };
        let page = match self.codepage(data.codepage.as_str()) {
            Some(page) => page,
            None => {
                return None;
            },
        };
        let text = match self.documents.get(data.uri.as_str()) {
            Some(text) => text,
            None => {
                return None;
            },
        };
        match self.source_for(data, text, disk) {
            Some(source) => {
                let new_text = convert(&source, direction, &page);
                Some(Edit { uri: data.uri.as_str().to_owned(), range: data.range, new_text })
            },
            None => None,
        }
    }

    /// What to tell the user about codepage ids that match nothing, so that a typo in settings is
    /// visible rather than silently reducing the menu.
    pub fn unknown_codepages_warning(&self) -> (warning: Option<String>)
        ensures
            match warning {
                Some(w) => unknown_warning(self@.requested) == Some(w@),
                None => unknown_warning(self@.requested) is None,
            },
    {
        let unknown = self.settings.unknown_codepages();
        if unknown.len() == 0 {
            return None;
        }
        let mut warning = "ebcdic-lsp: ignoring unknown codepage(s): ".to_owned();
        warning.append(join(&unknown, ", ").as_str());
        warning.append(". Known codepages: ");
        warning.append(known_ids().as_str());
        warning.append(".");
        Some(warning)
    }
}

/// The warning about requested ids that match nothing, if there are any.
pub open spec fn unknown_warning(requested: Seq<Seq<char>>) -> Option<Seq<char>> {
    let unknown = requested.filter(|id: Seq<char>| !known(id));
    if unknown.len() == 0 {
        None
    } else {
        Some(
            "ebcdic-lsp: ignoring unknown codepage(s): "@ + joined(unknown, ", "@)
                + ". Known codepages: "@ + joined(all_ids(), ", "@) + "."@,
        )
    }
}

/// The action for one codepage and direction.
fn offer(
    uri: &str,
    range: Range,
    whole_document: bool,
    page: &Codepage,
    direction: Direction,
) -> (action: CodeAction)
    ensures
        action@ == (Offer {
            title: direction.title_text(page.id@),
            kind: ACTION_KIND@,
            data: Choice {
                uri: uri@,
                codepage: page.id@,
                direction: direction.name(),
                range,
                whole_document,
            },
        }),
{
    CodeAction {
        title: direction.title(page.id),
        kind: ACTION_KIND,
        data: ActionData {
            uri: uri.to_owned(),
            codepage: page.id.to_owned(),
            direction: direction.as_str().to_owned(),
            range,
            whole_document,
        },
    }
}

// ---------------------------------------------------------------------------------------------
// Laws
// ---------------------------------------------------------------------------------------------
/// Either nothing is on offer, or two actions for each enabled codepage.
pub proof fn lemma_two_offers_per_codepage(state: State, uri: Seq<char>, range: Range)
    ensures
        state.offers(uri, range).len() == if state.has_target(uri, range) {
            2 * enabled(state.requested).len()
        } else {
            0
        },
{
}

/// Every action on offer can be picked: it resolves to an edit of the very range it was offered
/// for, whether or not the file on disk could be read.
pub proof fn lemma_every_offer_resolves(
    state: State,
    uri: Seq<char>,
    range: Range,
    i: int,
    disk: Option<Seq<u8>>,
)
    requires
        0 <= i < state.offers(uri, range).len(),
    ensures
        ({
            let data = state.offers(uri, range)[i].data;
            &&& state.resolved(data, disk) matches Some(change)
            &&& change.uri == uri
            &&& change.range == state.target(uri, range)
        }),
{
    let pages = enabled(state.requested);
    let page = pages[i / 2];
    let direction = if i % 2 == 0 {
        Direction::EbcdicToAscii
    } else {
        Direction::AsciiToEbcdic
    };
    assert(0 <= i / 2 < pages.len());
    lemma_direction_round_trips(direction, direction.name());
    lemma_found(pages, page.id@);
    if found(pages, page.id@) is None {
        assert(pages[i / 2].id@ != page.id@);
    }
}

/// A selection, and an encoding of any kind, is converted from what is on screen: the file on disk
/// makes no difference.
pub proof fn lemma_disk_matters_only_for_whole_decodes(
    state: State,
    data: Choice,
    disk: Option<Seq<u8>>,
)
    requires
        !data.whole_document || Direction::named(data.direction) != Some(Direction::EbcdicToAscii),
    ensures
        state.file_for(data) is None,
        state.resolved(data, disk) == state.resolved(data, None),
{
}

/// Decoding a whole document starts from its bytes on disk, however the buffer was mangled.
pub proof fn lemma_whole_decode_ignores_the_buffer(
    state: State,
    data: Choice,
    bytes: Seq<u8>,
)
    requires
        state.file_for(data) is Some,
    ensures
        state.resolved(data, Some(bytes)) == Some(
            Change {
                uri: data.uri,
                range: data.range,
                new_text: decoded(bytes, found(enabled(state.requested), data.codepage)->0),
            },
        ),
{
}

/// Whether the end of `text` fits a position.
pub open spec fn fits_positions(text: Seq<char>) -> bool {
    &&& last_line(text, 0, 0).0 <= u32::MAX
    &&& utf16_len(text.skip(last_line(text, 0, 0).1)) <= u32::MAX
}

/// The data of the action that converts all of a document.
pub open spec fn whole_choice(
    state: State,
    uri: Seq<char>,
    page: Codepage,
    direction: Direction,
) -> Choice {
    Choice {
        uri,
        codepage: page.id@,
        direction: direction.name(),
        range: whole(state.documents[uri]),
        whole_document: true,
    }
}

/// Encoding a whole document and then decoding the result, from the buffer, restores its text.
pub proof fn lemma_round_trip_restores_the_text(state: State, uri: Seq<char>, page: Codepage)
    requires
        state.documents.dom().contains(uri),
        survives(state.documents[uri]),
        found(enabled(state.requested), page.id@) == Some(page),
        fits_positions(state.documents[uri]),
        fits_positions(encoded(state.documents[uri], page)),
    ensures
        ({
            let text = state.documents[uri];
            let encode = whole_choice(state, uri, page, Direction::AsciiToEbcdic);
            &&& state.resolved(encode, None) matches Some(there)
            &&& there.range == whole(text)
            &&& ({
                let later = State {
                    documents: state.documents.insert(uri, there.new_text),
                    ..state
                };
                let decode = whole_choice(later, uri, page, Direction::EbcdicToAscii);
                &&& later.resolved(decode, None) matches Some(back)
                &&& back.range == whole(there.new_text)
                &&& back.new_text == text
            })
        }),
{
    let text = state.documents[uri];
    lemma_direction_round_trips(Direction::AsciiToEbcdic, Direction::AsciiToEbcdic.name());
    lemma_direction_round_trips(Direction::EbcdicToAscii, Direction::EbcdicToAscii.name());
    lemma_full_range_covers_everything(text);
    lemma_full_range_covers_everything(encoded(text, page));
    let pages = enabled(state.requested);
    lemma_found(pages, page.id@);
    lemma_enabled_never_empty(state.requested);
    lemma_codepages_well_formed();
    let i = choose|i: int| 0 <= i < pages.len() && #[trigger] pages[i] == page;
    assert(all_codepages().contains(pages[i]));
    let k = choose|k: int| 0 <= k < all_codepages().len() && #[trigger] all_codepages()[k] == page;
    assert(all_codepages()[k].well_formed());
    lemma_round_trip(text, page);
}

/// A document is there from when it is opened until it is closed, with the text last reported;
/// other documents and the settings are left alone.
pub proof fn lemma_document_lifecycle(
    state: State,
    opened: Event<'_>,
    changed: Event<'_>,
    closed: Event<'_>,
)
    requires
        opened is Opened,
        changed is Changed,
        closed is Closed,
        changed->Changed_uri@ == opened->Opened_uri@,
        closed->Closed_uri@ == opened->Opened_uri@,
        changed->texts@.len() > 0,
    ensures
        ({
            let uri = opened->Opened_uri@;
            let one = state.after(opened);
            let two = one.after(changed);
            let three = two.after(closed);
            &&& one.documents.dom().contains(uri) && one.documents[uri] == opened->text@
            &&& two.documents.dom().contains(uri) && two.documents[uri]
                == changed->texts@.last()@
            &&& !three.documents.dom().contains(uri)
            &&& three.documents == state.documents.remove(uri)
            &&& three.requested == state.requested
        }),
{
    let uri = opened->Opened_uri@;
    assert(state.after(opened).after(changed).after(closed).documents
        =~= state.documents.remove(uri));
}

/// What is offered for a range of a document: where the document is open and there is text in the
/// range, or in all of the document where nothing is selected, one action that decodes and one that
/// encodes for each enabled codepage, for that range; and otherwise nothing.
pub proof fn lemma_offers_in_full(state: State, uri: Seq<char>, range: Range, k: int)
    ensures
        ({
            let text = state.documents[uri];
            let target = if range.start == range.end {
                whole(text)
            } else {
                range
            };
            let pages = enabled(state.requested);
            let offers = state.offers(uri, range);
            let something = state.documents.dom().contains(uri) && sliced(text, target) is Some
                && sliced(text, target)->0.len() > 0;
            &&& !something ==> offers.len() == 0
            &&& something ==> offers.len() == 2 * pages.len()
            &&& something && 0 <= k < pages.len() ==> ({
                let decode = offers[2 * k];
                let encode = offers[2 * k + 1];
                &&& decode.title == "Convert Ebcdic"@ + pages[k].id@ + " to Ascii"@
                &&& encode.title == "Convert Ascii to Ebcdic"@ + pages[k].id@
                &&& decode.data.direction == "ebcdicToAscii"@
                &&& encode.data.direction == "asciiToEbcdic"@
                &&& decode.kind == "refactor.rewrite"@ && encode.kind == "refactor.rewrite"@
                &&& decode.data.uri == uri && encode.data.uri == uri
                &&& decode.data.codepage == pages[k].id@ && encode.data.codepage == pages[k].id@
                &&& decode.data.range == target && encode.data.range == target
                &&& decode.data.whole_document == (range.start == range.end)
                &&& encode.data.whole_document == (range.start == range.end)
            })
        }),
{
    if 0 <= k < enabled(state.requested).len() {
        assert((2 * k) / 2 == k && (2 * k) % 2 == 0);
        assert((2 * k + 1) / 2 == k && (2 * k + 1) % 2 == 1);
    }
}

/// What a picked action does: it replaces its range by that text converted, decoding all of a
/// document that has a file from the bytes on disk where they could be read and everything else
/// from the text in the buffer; and it does nothing where its direction or its codepage is not
/// known, its document not open, or its range inverted.
pub proof fn lemma_resolves_in_full(state: State, data: Choice, disk: Option<Seq<u8>>)
    ensures
        ({
            let page = found(enabled(state.requested), data.codepage);
            let part = sliced(state.documents[data.uri], data.range);
            let decodes = data.direction == "ebcdicToAscii"@;
            let encodes = data.direction == "asciiToEbcdic"@;
            let from_disk = decodes && data.whole_document && file_of(data.uri) is Some
                && disk is Some;
            let usable = (decodes || encodes) && page is Some && state.documents.dom().contains(
                data.uri,
            );
            let resolved = state.resolved(data, disk);
            &&& !usable ==> resolved is None
            &&& !from_disk && part is None ==> resolved is None
            &&& usable && (from_disk || part is Some) ==> resolved is Some && resolved->0.uri
                == data.uri && resolved->0.range == data.range
            &&& usable && from_disk ==> resolved->0.new_text == decoded(disk->0, page->0)
            &&& usable && decodes && !from_disk && part is Some ==> resolved->0.new_text
                == decoded_text(part->0, page->0)
            &&& usable && encodes && part is Some ==> resolved->0.new_text == encoded(
                part->0,
                page->0,
            )
        }),
{
    lemma_direction_names_differ();
}

/// Which file is read before an action is resolved: that of its document, for decoding all of it,
/// and none for anything else.
pub proof fn lemma_file_is_read_for_whole_decodes(state: State, data: Choice)
    ensures
        ({
            let usable = found(enabled(state.requested), data.codepage) is Some
                && state.documents.dom().contains(data.uri);
            let decodes_all = data.direction == "ebcdicToAscii"@ && data.whole_document;
            &&& usable && decodes_all ==> state.file_for(data) == file_of(data.uri)
            &&& !(usable && decodes_all) ==> state.file_for(data) is None
        }),
{
    lemma_direction_names_differ();
}

proof fn lemma_direction_names_differ()
    ensures
        "ebcdicToAscii"@ != "asciiToEbcdic"@,
{
    reveal_strlit("ebcdicToAscii");
    reveal_strlit("asciiToEbcdic");
    assert("ebcdicToAscii"@[0] != "asciiToEbcdic"@[0]);
}

/// What each notification changes, and that it changes nothing else.
pub proof fn lemma_notifications(
    state: State,
    uri: String,
    text: String,
    texts: Vec<String>,
    settings: &serde_json::Value,
)
    ensures
        ({
            let opened = state.after(Event::Opened { uri, text });
            let changed = state.after(Event::Changed { uri, texts });
            let closed = state.after(Event::Closed { uri });
            let configured = state.after(Event::Configured { settings });
            &&& opened.documents == state.documents.insert(uri@, text@)
            &&& texts@.len() > 0 ==> changed.documents == state.documents.insert(
                uri@,
                texts@.last()@,
            )
            &&& texts@.len() == 0 ==> changed.documents == state.documents
            &&& closed.documents == state.documents.remove(uri@)
            &&& configured.documents == state.documents
            &&& opened.requested == state.requested
            &&& changed.requested == state.requested
            &&& closed.requested == state.requested
            &&& configured.requested == listed(scoped(json_of(*settings)))
        }),
{
}

/// Which methods are known, and as what.
pub proof fn lemma_methods_by_name(name: Seq<char>)
    ensures
        RequestMethod::named(name) == RequestMethod::CodeAction <==> name
            == "textDocument/codeAction"@,
        RequestMethod::named(name) == RequestMethod::ResolveCodeAction <==> name
            == "codeAction/resolve"@,
        NotificationMethod::named(name) == NotificationMethod::DidOpen <==> name
            == "textDocument/didOpen"@,
        NotificationMethod::named(name) == NotificationMethod::DidChange <==> name
            == "textDocument/didChange"@,
        NotificationMethod::named(name) == NotificationMethod::DidClose <==> name
            == "textDocument/didClose"@,
        NotificationMethod::named(name) == NotificationMethod::DidChangeConfiguration <==> name
            == "workspace/didChangeConfiguration"@,
{
    reveal_strlit("textDocument/codeAction");
    reveal_strlit("codeAction/resolve");
    reveal_strlit("textDocument/didOpen");
    reveal_strlit("textDocument/didChange");
    reveal_strlit("textDocument/didClose");
    reveal_strlit("workspace/didChangeConfiguration");
    assert("textDocument/codeAction"@[0] == 't' && "codeAction/resolve"@[0] == 'c');
    assert("textDocument/didOpen"@.len() == 20 && "textDocument/didChange"@.len() == 22);
    assert("textDocument/didClose"@.len() == 21);
    assert("workspace/didChangeConfiguration"@[0] == 'w');
    assert("textDocument/didOpen"@[0] == 't' && "textDocument/didChange"@[0] == 't');
    assert("textDocument/didClose"@[0] == 't');
}

/// The warning names every requested id that spells no codepage, in order, and nothing else, and
/// there is none where every one does.
pub proof fn lemma_warning_names_the_unknown(requested: Seq<Seq<char>>)
    ensures
        ({
            let unknown = requested.filter(
                |id: Seq<char>| !all_ids().contains(normalized(id)),
            );
            &&& unknown.len() == 0 ==> unknown_warning(requested) is None
            &&& unknown.len() > 0 ==> unknown_warning(requested) == Some(
                "ebcdic-lsp: ignoring unknown codepage(s): "@ + joined(unknown, ", "@)
                    + ". Known codepages: "@ + joined(all_ids(), ", "@) + "."@,
            )
        }),
{
    assert((|id: Seq<char>| !all_ids().contains(normalized(id))) =~= (|id: Seq<char>| !known(id)));
}

} // verus!
