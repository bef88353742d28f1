//! One item, from its page to its file: what to ask for, what to make of
//! each answer, and when the item has failed.

use crate::date::parsed_date;
use crate::date::year_text;
use crate::date::Date;
use crate::store::file_name_text;
use crate::store::Storer;
use scraper::Html;
use scraper::Selector;
use vstd::prelude::*;
use vstd::string::StringExecFns;

verus! {

/// Why an item failed.
#[derive(Clone, Copy, Debug, PartialEq, Eq, Structural)]
pub enum FetchError {
    /// A request failed: the network, a time-out, or a status that is no
    /// success.
    Request,
    /// The file system refused.
    IO,
    /// The page does not hold what was expected, or its date cannot be read.
    Parse,
    /// The content type is missing or not one of the known ones.
    FileType,
}

/// The kinds of file that are kept.
#[derive(Clone, Copy, Debug, PartialEq, Eq, Structural)]
pub enum Extension {
    Png,
    Jpg,
    Gif,
}

impl Extension {
    /// The ending of a file name for this kind of file.
    pub open spec fn text(self) -> Seq<char> {
        match self {
            Extension::Png => seq!['p', 'n', 'g'],
            Extension::Jpg => seq!['j', 'p', 'g'],
            Extension::Gif => seq!['g', 'i', 'f'],
        }
    }

    /// The ending of a file name for this kind of file.
    pub fn as_str(&self) -> (r: &'static str)
        ensures
            r@ == self.text(),
    {
        proof {
            reveal_strlit("png");
            reveal_strlit("jpg");
            reveal_strlit("gif");
        }
        match self {
            Extension::Png => {
                assert("png"@ =~= Extension::Png.text());
                "png"
            },
            Extension::Jpg => {
                assert("jpg"@ =~= Extension::Jpg.text());
                "jpg"
            },
            Extension::Gif => {
                assert("gif"@ =~= Extension::Gif.text());
                "gif"
            },
        }
    }
}

impl FetchError {
    /// What went wrong, in words.
    pub open spec fn text(self) -> Seq<char> {
        match self {
            FetchError::Request => "HTTP request error"@,
            FetchError::IO => "general IO error"@,
            FetchError::Parse => "parse failure"@,
            FetchError::FileType => "unknown file type"@,
        }
    }

    /// What went wrong, in words.
    pub fn to_string(&self) -> (r: String)
        ensures
            r@ == self.text(),
    {
        match self {
            FetchError::Request => String::from_str("HTTP request error"),
            FetchError::IO => String::from_str("general IO error"),
            FetchError::Parse => String::from_str("parse failure"),
            FetchError::FileType => String::from_str("unknown file type"),
        }
    }
}

/// The bytes of `image/png`.
pub open spec fn image_png() -> Seq<u8> {
    seq![105u8, 109u8, 97u8, 103u8, 101u8, 47u8, 112u8, 110u8, 103u8]
}

/// The bytes of `image/jpg`.
pub open spec fn image_jpg() -> Seq<u8> {
    seq![105u8, 109u8, 97u8, 103u8, 101u8, 47u8, 106u8, 112u8, 103u8]
}

/// The bytes of `image/gif`.
pub open spec fn image_gif() -> Seq<u8> {
    seq![105u8, 109u8, 97u8, 103u8, 101u8, 47u8, 103u8, 105u8, 102u8]
}

/// The bytes of `image/jpeg`.
pub open spec fn image_jpeg() -> Seq<u8> {
    seq![105u8, 109u8, 97u8, 103u8, 101u8, 47u8, 106u8, 112u8, 101u8, 103u8]
}

/// The kind of file that a content type stands for, if it is a known one.
pub open spec fn classify(content_type: Seq<u8>) -> Option<Extension> {
    if content_type == image_png() {
        Some(Extension::Png)
    } else if content_type == image_jpg() || content_type == image_jpeg() {
        Some(Extension::Jpg)
    } else if content_type == image_gif() {
        Some(Extension::Gif)
    } else {
        None
    }
}

/// Whether `a` holds exactly the bytes of `b`.
fn same_bytes(a: &[u8], b: &[u8]) -> (r: bool)
    ensures
        r == (a@ == b@),
{
    if a.len() != b.len() {
        return false;
    }
    let mut i: usize = 0;
    while i < a.len()
        invariant
            i <= a.len(),
            a.len() == b.len(),
            forall|j: int| 0 <= j < i ==> a@[j] == b@[j],
        decreases a.len() - i,
    {
        if a[i] != b[i] {
            return false;
        }
        i = i + 1;
    }
    assert(a@ =~= b@);
    true
}

/// The kind of file that the content type `v` stands for. A content type
/// that is not on the list is refused, whatever it looks like.
pub fn get_end(v: &[u8]) -> (r: Result<Extension, FetchError>)
    ensures
        r == (match classify(v@) {
            Some(e) => Ok::<Extension, FetchError>(e),
            None => Err::<Extension, FetchError>(FetchError::FileType),
        }),
{
    let png: [u8; 9] = [105, 109, 97, 103, 101, 47, 112, 110, 103];
    let jpg: [u8; 9] = [105, 109, 97, 103, 101, 47, 106, 112, 103];
    let gif: [u8; 9] = [105, 109, 97, 103, 101, 47, 103, 105, 102];
    let jpeg: [u8; 10] = [105, 109, 97, 103, 101, 47, 106, 112, 101, 103];
    assert(png@ =~= image_png());
    assert(jpg@ =~= image_jpg());
    assert(gif@ =~= image_gif());
    assert(jpeg@ =~= image_jpeg());
    if same_bytes(v, png.as_slice()) {
        Ok(Extension::Png)
    } else if same_bytes(v, jpg.as_slice()) || same_bytes(v, jpeg.as_slice()) {
        Ok(Extension::Jpg)
    } else if same_bytes(v, gif.as_slice()) {
        Ok(Extension::Gif)
    } else {
        Err(FetchError::FileType)
    }
}

/// The longest page that is read, in characters. A character takes at most
/// four bytes, and the parser of pages cannot grow a piece of text beyond
/// 2^31 bytes.
pub const MAX_PAGE: usize = 0x1fff_ffff;

/// The two selectors that pages are read with: the picture, and the
/// heading that holds the date.
pub open spec fn known_selector(selector: Seq<char>) -> bool {
    selector == "div.strip>img"@ || selector == "div.date>h2"@
}

/// Where the picture of an item is to be had.
#[derive(Clone, Debug)]
pub struct ImgUrl(pub String);

impl View for ImgUrl {
    type V = Seq<char>;

    open spec fn view(&self) -> Seq<char> {
        self.0@
    }
}

/// The text of the attribute `name` of the first element of the document
/// `doc` that the selector `selector` matches, as `scraper` finds it. The
/// outer `None` says that `selector` is no selector; the inner one, that no
/// element matches or that the first match lacks the attribute.
pub uninterp spec fn first_attribute(doc: Seq<char>, selector: Seq<char>, name: Seq<char>) -> Option<Option<Seq<char>>>;

/// The text inside the first element of the document `doc` that the
/// selector `selector` matches, as `scraper` finds it. The outer `None`
/// says that `selector` is no selector; the inner one, that no element
/// matches.
pub uninterp spec fn first_text(doc: Seq<char>, selector: Seq<char>) -> Option<Option<Seq<char>>>;

/// The characters of a text that a selection has handed back.
pub open spec fn selected(found: Option<Option<String>>) -> Option<Option<Seq<char>>> {
    match found {
        Some(Some(s)) => Some(Some(s@)),
        Some(None) => Some(None),
        None => None,
    }
}

/// Parses `selector` with `scraper::Selector::parse` and `doc` with
/// `scraper::Html::parse_document`, takes the first element that
/// `Html::select` yields and reads its attribute `name` with
/// `Element::attr`. The contract only gives that result its name,
/// [`first_attribute`]. The parser stops with a panic where a piece of
/// text grows beyond 2^31 bytes, so pages that could hold one are left out;
/// selectors other than the two that are used are left out as well, since
/// nothing bounds how deep the parser of selectors goes.
#[verifier::external_body]
fn select_attr(doc: &str, selector: &str, name: &str) -> (r: Option<Option<String>>)
    requires
        doc@.len() <= MAX_PAGE,
        known_selector(selector@),
    ensures
        selected(r) == first_attribute(doc@, selector@, name@),
{
    match Selector::parse(selector) {
        Ok(parsed) => match Html::parse_document(doc).select(&parsed).next() {
            Some(element) => Some(element.value().attr(name).map(String::from)),
            None => Some(None),
        },
        Err(_) => None,
    }
}

/// Parses `selector` with `scraper::Selector::parse` and `doc` with
/// `scraper::Html::parse_document`, takes the first element that
/// `Html::select` yields and collects what `ElementRef::text` yields.
/// The contract only gives that result its name, [`first_text`]. The parser
/// stops with a panic where a piece of text grows beyond 2^31 bytes, so
/// pages that could hold one are left out; selectors other than the two
/// that are used are left out as well, since nothing bounds how deep the
/// parser of selectors goes.
#[verifier::external_body]
fn select_text(doc: &str, selector: &str) -> (r: Option<Option<String>>)
    requires
        doc@.len() <= MAX_PAGE,
        known_selector(selector@),
    ensures
        selected(r) == first_text(doc@, selector@),
{
    match Selector::parse(selector) {
        Ok(parsed) => match Html::parse_document(doc).select(&parsed).next() {
            Some(element) => Some(Some(element.text().collect())),
            None => Some(None),
        },
        Err(_) => None,
    }
}

/// What a page yields, given the address and the date text that were
/// selected from it: both must be there, and the text must read as a date.
pub open spec fn extraction(
    url: Option<Option<Seq<char>>>,
    text: Option<Option<Seq<char>>>,
) -> Option<(Seq<char>, (int, int, int))> {
    match (url, text) {
        (Some(Some(u)), Some(Some(t))) => match parsed_date(t, "%A, %-d %B %Y"@) {
            Some(d) => Some((u, d)),
            None => None,
        },
        _ => None,
    }
}

/// What the page `doc` yields: the address of its picture and its date.
/// A page of more than [`MAX_PAGE`] characters is not read, and yields
/// nothing.
pub open spec fn page_yield(doc: Seq<char>) -> Option<(Seq<char>, (int, int, int))> {
    if doc.len() > MAX_PAGE {
        None
    } else {
        extraction(
            first_attribute(doc, "div.strip>img"@, "src"@),
            first_text(doc, "div.date>h2"@),
        )
    }
}

/// The address and the date of an item, or the failure to find them.
pub open spec fn located(r: Result<(ImgUrl, Date), FetchError>) -> Option<(Seq<char>, (int, int, int))> {
    match r {
        Ok((u, d)) => Some((u@, d@)),
        Err(_) => None,
    }
}

/// Puts together what was found on a page. Either part missing is a parse
/// failure.
pub fn found(url: Option<String>, date: Option<Date>) -> (r: Result<(ImgUrl, Date), FetchError>)
    ensures
        r is Ok <==> url is Some && date is Some,
        r matches Ok(p) ==> p.0@ == url->0@ && p.1 == date->0,
        r matches Err(e) ==> e == FetchError::Parse,
{
    match (url, date) {
        (Some(u), Some(d)) => Ok((ImgUrl(u), d)),
        _ => Err(FetchError::Parse),
    }
}

/// Reads the address of the picture and the date out of the page `doc`:
/// the `src` of the first `div.strip>img`, and the text of the first
/// `div.date>h2`, which is a date written like `Tuesday, 5 March 2019`.
/// A page of more than [`MAX_PAGE`] characters is a parse failure.
pub fn extract_url(doc: &str) -> (r: Result<(ImgUrl, Date), FetchError>)
    ensures
        located(r) == page_yield(doc@),
        r matches Err(e) ==> e == FetchError::Parse,
        doc@.len() > MAX_PAGE ==> r is Err,
{
    if doc.unicode_len() > MAX_PAGE {
        return Err(FetchError::Parse);
    }
    let url = match select_attr(doc, "div.strip>img", "src") {
        Some(u) => u,
        None => None,
    };
    let date = match select_text(doc, "div.date>h2") {
        Some(Some(text)) => Date::parse_from_str(text.as_str(), "%A, %-d %B %Y"),
        _ => None,
    };
    found(url, date)
}

/// What the storing of a picture waits for.
#[derive(Clone, Copy, Debug, PartialEq, Eq, Structural)]
pub enum Phase {
    /// For the file to be opened.
    Opening,
    /// For the next piece of the body.
    Reading,
    /// For the last piece to be written.
    Writing,
}

/// How far an item has come.
#[derive(Clone, Debug)]
pub enum Stage {
    /// Its page has been asked for.
    Locating,
    /// Its picture has been asked for.
    Downloading { url: ImgUrl, date: Date },
    /// Its picture is being written, piece by piece.
    Storing { date: Date, phase: Phase },
    /// Its picture is in its file.
    Done { date: Date },
    /// It has failed, and is not tried again.
    Failed { reason: FetchError },
}

/// What came back from outside.
#[derive(Clone, Debug)]
pub enum Event {
    /// The page of the item.
    Page(String),
    /// The answer to the request for the picture, with the bytes of its
    /// content type where it names one.
    Head(Option<Vec<u8>>),
    /// The file is open.
    Opened,
    /// A piece of the body.
    Chunk(Vec<u8>),
    /// The body has ended.
    End,
    /// The piece is written.
    Written,
    /// A request failed.
    RequestFailed,
    /// The file system refused.
    IoFailed,
}

/// What is to be done next outside.
pub enum Action {
    /// Ask for the page of the item `index`.
    FetchIndex { index: i32 },
    /// Ask for the picture.
    FetchAsset { url: ImgUrl },
    /// Make the directory if it is not there, and open a fresh file.
    Open { storer: Storer },
    /// Wait for the next piece of the body.
    NextChunk,
    /// Write these bytes to the end of the file.
    Write { payload: Vec<u8> },
    /// Nothing more: the item is done or has failed.
    Stop,
}

/// A stage, with texts as sequences and dates as year, month and day.
pub enum StageView {
    Locating,
    Downloading { url: Seq<char>, date: (int, int, int) },
    Storing { date: (int, int, int), phase: Phase },
    Done { date: (int, int, int) },
    Failed { reason: FetchError },
}

/// An event, with texts and bytes as sequences.
pub enum EventView {
    Page(Seq<char>),
    Head(Option<Seq<u8>>),
    Opened,
    Chunk(Seq<u8>),
    End,
    Written,
    RequestFailed,
    IoFailed,
}

/// An action, with texts and bytes as sequences.
pub enum ActionView {
    FetchIndex { index: i32 },
    FetchAsset { url: Seq<char> },
    Open { directory: Seq<char>, file_name: Seq<char> },
    NextChunk,
    Write { payload: Seq<u8> },
    Stop,
}

impl View for Stage {
    type V = StageView;

    open spec fn view(&self) -> StageView {
        match *self {
            Stage::Locating => StageView::Locating,
            Stage::Downloading { url, date } => StageView::Downloading { url: url@, date: date@ },
            Stage::Storing { date, phase } => StageView::Storing { date: date@, phase },
            Stage::Done { date } => StageView::Done { date: date@ },
            Stage::Failed { reason } => StageView::Failed { reason },
        }
    }
}

impl View for Event {
    type V = EventView;

    open spec fn view(&self) -> EventView {
        match *self {
            Event::Page(doc) => EventView::Page(doc@),
            Event::Head(Some(v)) => EventView::Head(Some(v@)),
            Event::Head(None) => EventView::Head(None),
            Event::Opened => EventView::Opened,
            Event::Chunk(bytes) => EventView::Chunk(bytes@),
            Event::End => EventView::End,
            Event::Written => EventView::Written,
            Event::RequestFailed => EventView::RequestFailed,
            Event::IoFailed => EventView::IoFailed,
        }
    }
}

impl View for Action {
    type V = ActionView;

    open spec fn view(&self) -> ActionView {
        match *self {
            Action::FetchIndex { index } => ActionView::FetchIndex { index },
            Action::FetchAsset { url } => ActionView::FetchAsset { url: url@ },
            Action::Open { storer } => ActionView::Open {
                directory: storer.directory@,
                file_name: storer.file_name@,
            },
            Action::NextChunk => ActionView::NextChunk,
            Action::Write { payload } => ActionView::Write { payload: payload@ },
            Action::Stop => ActionView::Stop,
        }
    }
}

/// The action that came out of a step, if one did.
pub open spec fn action_view(action: Option<Action>) -> Option<ActionView> {
    match action {
        Some(a) => Some(a@),
        None => None,
    }
}

/// The stage after a failure, and the action that goes with it.
pub open spec fn fail(reason: FetchError) -> (StageView, Option<ActionView>) {
    (StageView::Failed { reason }, Some(ActionView::Stop))
}

/// The rule of the item: the stage after `event` has come in at `stage`,
/// and what is to be done next. An event that the stage does not wait for
/// changes nothing and asks for nothing.
pub open spec fn next(stage: StageView, event: EventView) -> (StageView, Option<ActionView>) {
    match (stage, event) {
        (StageView::Locating, EventView::Page(doc)) => match page_yield(doc) {
            Some((url, date)) => (
                StageView::Downloading { url, date },
                Some(ActionView::FetchAsset { url }),
            ),
            None => fail(FetchError::Parse),
        },
        (StageView::Locating, EventView::RequestFailed) => fail(FetchError::Request),
        (StageView::Downloading { url, date }, EventView::Head(Some(content_type))) => match classify(
            content_type,
        ) {
            Some(kind) => (
                StageView::Storing { date, phase: Phase::Opening },
                Some(
                    ActionView::Open {
                        directory: year_text(date.0),
                        file_name: file_name_text(date, kind.text()),
                    },
                ),
            ),
            None => fail(FetchError::FileType),
        },
        (StageView::Downloading { url, date }, EventView::Head(None)) => fail(FetchError::FileType),
        (StageView::Downloading { url, date }, EventView::RequestFailed) => fail(
            FetchError::Request,
        ),
        (StageView::Storing { date, phase: Phase::Opening }, EventView::Opened) => (
            StageView::Storing { date, phase: Phase::Reading },
            Some(ActionView::NextChunk),
        ),
        (StageView::Storing { date, phase: Phase::Opening }, EventView::IoFailed) => fail(
            FetchError::IO,
        ),
        (StageView::Storing { date, phase: Phase::Reading }, EventView::Chunk(payload)) => (
            StageView::Storing { date, phase: Phase::Writing },
            Some(ActionView::Write { payload }),
        ),
        (StageView::Storing { date, phase: Phase::Reading }, EventView::End) => (
            StageView::Done { date },
            Some(ActionView::Stop),
        ),
        (StageView::Storing { date, phase: Phase::Reading }, EventView::RequestFailed) => fail(
            FetchError::Request,
        ),
        (StageView::Storing { date, phase: Phase::Writing }, EventView::Written) => (
            StageView::Storing { date, phase: Phase::Reading },
            Some(ActionView::NextChunk),
        ),
        (StageView::Storing { date, phase: Phase::Writing }, EventView::IoFailed) => fail(
            FetchError::IO,
        ),
        _ => (stage, None),
    }
}

impl Stage {
    /// The stage in which an item starts, and the first thing to do for it.
    pub fn begin(index: i32) -> (r: (Stage, Action))
        ensures
            r.0@ == StageView::Locating,
            r.1@ == (ActionView::FetchIndex { index }),
    {
        (Stage::Locating, Action::FetchIndex { index })
    }

    /// Takes in what came back from outside, and says what to do next.
    pub fn step(self, event: Event) -> (r: (Stage, Option<Action>))
        ensures
            (r.0@, action_view(r.1)) == next(self@, event@),
    {
        match self {
            Stage::Locating => match event {
                Event::Page(doc) => match extract_url(doc.as_str()) {
                    Ok((url, date)) => {
                        let ask = ImgUrl(url.0.clone());
                        (Stage::Downloading { url, date }, Some(Action::FetchAsset { url: ask }))
                    },
                    Err(_) => (Stage::Failed { reason: FetchError::Parse }, Some(Action::Stop)),
                },
                Event::RequestFailed => (
                    Stage::Failed { reason: FetchError::Request },
                    Some(Action::Stop),
                ),
                _ => (Stage::Locating, None),
            },
            Stage::Downloading { url, date } => match event {
                Event::Head(Some(content_type)) => match get_end(content_type.as_slice()) {
                    Ok(kind) => {
                        let storer = Storer::new(date, kind.as_str());
                        (
                            Stage::Storing { date, phase: Phase::Opening },
                            Some(Action::Open { storer }),
                        )
                    },
                    Err(_) => (Stage::Failed { reason: FetchError::FileType }, Some(Action::Stop)),
                },
                Event::Head(None) => (
                    Stage::Failed { reason: FetchError::FileType },
                    Some(Action::Stop),
                ),
                Event::RequestFailed => (
                    Stage::Failed { reason: FetchError::Request },
                    Some(Action::Stop),
                ),
                _ => (Stage::Downloading { url, date }, None),
            },
            Stage::Storing { date, phase } => match (phase, event) {
                (Phase::Opening, Event::Opened) => (
                    Stage::Storing { date, phase: Phase::Reading },
                    Some(Action::NextChunk),
                ),
                (Phase::Opening, Event::IoFailed) => (
                    Stage::Failed { reason: FetchError::IO },
                    Some(Action::Stop),
                ),
                (Phase::Reading, Event::Chunk(payload)) => (
                    Stage::Storing { date, phase: Phase::Writing },
                    Some(Action::Write { payload }),
                ),
                (Phase::Reading, Event::End) => (Stage::Done { date }, Some(Action::Stop)),
                (Phase::Reading, Event::RequestFailed) => (
                    Stage::Failed { reason: FetchError::Request },
                    Some(Action::Stop),
                ),
                (Phase::Writing, Event::Written) => (
                    Stage::Storing { date, phase: Phase::Reading },
                    Some(Action::NextChunk),
                ),
                (Phase::Writing, Event::IoFailed) => (
                    Stage::Failed { reason: FetchError::IO },
                    Some(Action::Stop),
                ),
                _ => (Stage::Storing { date, phase }, None),
            },
            Stage::Done { date } => (Stage::Done { date }, None),
            Stage::Failed { reason } => (Stage::Failed { reason }, None),
        }
    }

    /// How the item ended, once it has: its date, or why it failed.
    pub fn outcome(&self) -> (r: Option<Result<Date, FetchError>>)
        ensures
            r == (match *self {
                Stage::Done { date } => Some(Ok::<Date, FetchError>(date)),
                Stage::Failed { reason } => Some(Err::<Date, FetchError>(reason)),
                _ => None,
            }),
    {
        match self {
            Stage::Done { date } => Some(Ok(*date)),
            Stage::Failed { reason } => Some(Err(*reason)),
            _ => None,
        }
    }
}

} // verus!
