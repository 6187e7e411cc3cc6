//! The chat transcript format: a header of `::>key: value` lines, then
//! interaction blocks separated by blank lines.
//!
//! A text is read line by line, a line being what stands between two line
//! feeds. The header ends before the first empty line that a tag line
//! follows. A block ends at an empty line that is neither its first line nor
//! the last line of the text.

use crate::error::AppError;
use crate::ids::uuid_parsed;
use crate::ids::Uuid;
use crate::roundtrip::canonical;
use crate::roundtrip::lemma_format_parse_roundtrip;
use crate::roundtrip::lemma_parse_gives_canonical;
use crate::roundtrip::prints_well;
use crate::roundtrip::time_of;
use crate::roundtrip::times_print_clean;
use crate::roundtrip::times_read_back;
use crate::text::blank;
use crate::text::chars_of;
use crate::text::colon_index;
use crate::text::first_colon;
use crate::text::has_prefix;
use crate::text::is_blank;
use crate::text::lines_of;
use crate::text::lines_view;
use crate::text::push_chars;
use crate::text::push_str;
use crate::text::slice_chars;
use crate::text::split_lines;
use crate::text::starts_with;
use crate::text::string_of;
use crate::text::trim;
use crate::text::trim_end;
use crate::text::trim_start;
use crate::text::trimmed;
use crate::text::trimmed_end;
use crate::text::trimmed_start;
use crate::time::Timestamp;
use crate::types::interactions_view;
use crate::types::ChatLog;
use crate::types::ChatLogView;
use crate::types::Interaction;
use crate::types::InteractionView;
use vstd::prelude::*;
use vstd::string::StringExecFns;

verus! {

/// What every tag line begins with.
pub open spec fn tag_mark() -> Seq<char> {
    "::>"@
}

/// The tag of the identifier line.
pub open spec fn tag_uuid() -> Seq<char> {
    "::>uuid:"@
}

/// The tag of the title line.
pub open spec fn tag_title() -> Seq<char> {
    "::>title:"@
}

/// The tag of the model line.
pub open spec fn tag_model() -> Seq<char> {
    "::>model:"@
}

/// The tag of the status line.
pub open spec fn tag_status() -> Seq<char> {
    "::>status:"@
}

/// The tag that opens the system prompt.
pub open spec fn tag_system() -> Seq<char> {
    "::>system:"@
}

/// The tag of the time line of a block.
pub open spec fn tag_created_at() -> Seq<char> {
    "::>created_at:"@
}

/// The tag of an attachment line.
pub open spec fn tag_attach() -> Seq<char> {
    "::>attach:"@
}

/// The tag that opens a user turn.
pub open spec fn tag_user() -> Seq<char> {
    "::>user:"@
}

/// The tag that opens a model turn.
pub open spec fn tag_response() -> Seq<char> {
    "::>response:"@
}

/// The tag that opens an error entry.
pub open spec fn tag_error() -> Seq<char> {
    "::>error:"@
}

/// What follows the tag on a tag line.
pub open spec fn value_after(line: Seq<char>, tag: Seq<char>) -> Seq<char> {
    line.skip(tag.len() as int)
}

/// What the header lines read so far have said.
pub struct Header {
    pub uuid: Option<Uuid>,
    pub bad_uuid: bool,
    pub title: Seq<char>,
    pub model: Option<Seq<char>>,
    pub status: Option<Seq<char>>,
    pub prompt: Option<Seq<char>>,
    pub in_prompt: bool,
}

/// The header before any line is read: the defaults of a new session.
pub open spec fn header_start() -> Header {
    Header {
        uuid: None,
        bad_uuid: false,
        title: "Untitled"@,
        model: None,
        status: Some("local"@),
        prompt: None,
        in_prompt: false,
    }
}

/// Reads one header line. An empty line says nothing. A tag line ends a
/// running system prompt and sets its field, each value trimmed; a
/// `::>system:` line starts the prompt anew. Any other line continues the
/// system prompt if one is running, and is ignored otherwise.
pub open spec fn header_step(h: Header, line: Seq<char>) -> Header {
    if line.len() == 0 {
        h
    } else if has_prefix(line, tag_mark()) {
        let h = Header { in_prompt: false, ..h };
        if has_prefix(line, tag_uuid()) {
            match uuid_parsed(trim(value_after(line, tag_uuid()))) {
                Some(value) => Header { uuid: Some(Uuid { value }), ..h },
                None => Header { bad_uuid: true, ..h },
            }
        } else if has_prefix(line, tag_title()) {
            Header { title: trim(value_after(line, tag_title())), ..h }
        } else if has_prefix(line, tag_model()) {
            Header { model: Some(trim(value_after(line, tag_model()))), ..h }
        } else if has_prefix(line, tag_status()) {
            Header { status: Some(trim(value_after(line, tag_status()))), ..h }
        } else if has_prefix(line, tag_system()) {
            Header {
                prompt: Some(trim_start(value_after(line, tag_system()))),
                in_prompt: true,
                ..h
            }
        } else {
            h
        }
    } else if h.in_prompt && h.prompt is Some {
        Header { prompt: Some(h.prompt->Some_0 + seq!['\n'] + line), ..h }
    } else {
        h
    }
}

/// Reads header lines in order, starting from `h`.
pub open spec fn header_scan(h: Header, lines: Seq<Seq<char>>) -> Header
    decreases lines.len(),
{
    if lines.len() == 0 {
        h
    } else {
        header_step(header_scan(h, lines.drop_last()), lines.last())
    }
}

/// Which kind of turn a block holds.
#[derive(Clone, Copy)]
pub enum TurnKind {
    User,
    Ai,
    Error,
}

/// What the lines of the current block have said so far.
pub struct Block {
    pub created: Option<Timestamp>,
    pub attachments: Seq<InteractionView>,
    pub kind: Option<TurnKind>,
    pub content: Seq<char>,
    pub stray: bool,
}

/// A block before any of its lines is read.
pub open spec fn block_start() -> Block {
    Block {
        created: None,
        attachments: Seq::empty(),
        kind: None,
        content: Seq::empty(),
        stray: false,
    }
}

/// The two parts of a value that holds exactly one colon.
pub open spec fn split_at_only_colon(s: Seq<char>) -> Option<(Seq<char>, Seq<char>)> {
    let k = first_colon(s);
    if k < s.len() && first_colon(s.skip(k + 1)) == s.skip(k + 1).len() {
        Some((s.take(k), s.skip(k + 1)))
    } else {
        None
    }
}

/// Reads one line of a block. Before the turn tag: a `::>created_at:` line
/// sets the time, to `now` where its value is no RFC 3339 text; a
/// `::>attach:` line with exactly one colon in its value adds an attachment;
/// a turn tag starts the content; any other line says nothing. After the turn
/// tag every line continues the content. `stray` records whether the block
/// holds, before its turn tag, anything but time lines, attachment lines and
/// blank lines.
pub open spec fn block_step(b: Block, line: Seq<char>, now: Timestamp) -> Block {
    if b.kind is Some {
        Block { content: b.content + seq!['\n'] + line, ..b }
    } else if has_prefix(line, tag_created_at()) {
        Block {
            created: Some(
                match Timestamp::parsed(trim(value_after(line, tag_created_at()))) {
                    Some(t) => t,
                    None => now,
                },
            ),
            ..b
        }
    } else if has_prefix(line, tag_attach()) {
        match split_at_only_colon(value_after(line, tag_attach())) {
            Some((name, mime)) => Block {
                attachments: b.attachments.push(
                    InteractionView::Attachment { filename: trim(name), mime_type: trim(mime) },
                ),
                ..b
            },
            None => b,
        }
    } else if has_prefix(line, tag_user()) {
        Block {
            kind: Some(TurnKind::User),
            content: trim_start(value_after(line, tag_user())),
            ..b
        }
    } else if has_prefix(line, tag_response()) {
        Block {
            kind: Some(TurnKind::Ai),
            content: trim_start(value_after(line, tag_response())),
            ..b
        }
    } else if has_prefix(line, tag_error()) {
        Block {
            kind: Some(TurnKind::Error),
            content: trim_start(value_after(line, tag_error())),
            ..b
        }
    } else {
        Block { stray: b.stray || !is_blank(line), ..b }
    }
}

/// The turn that a finished block stands for.
pub open spec fn turn_of(kind: TurnKind, content: Seq<char>, created_at: Timestamp)
    -> InteractionView {
    match kind {
        TurnKind::User => InteractionView::User { content, created_at },
        TurnKind::Ai => InteractionView::Ai { content, created_at },
        TurnKind::Error => InteractionView::Error { reason: content, created_at },
    }
}

/// What the body lines read so far have given: the interactions that are
/// settled, the attachments of blocks without a turn, which wait for the
/// next turn, whether a block was refused, the current block, and whether
/// that block is still without a line.
pub struct Body {
    pub done: Seq<InteractionView>,
    pub waiting: Seq<InteractionView>,
    pub failed: bool,
    pub block: Block,
    pub fresh: bool,
}

/// The body before any of its lines is read.
pub open spec fn body_start() -> Body {
    Body {
        done: Seq::empty(),
        waiting: Seq::empty(),
        failed: false,
        block: block_start(),
        fresh: true,
    }
}

/// Ends the current block. A block with a turn tag gives the attachments
/// that waited, then its own, then its turn: the content with trailing white
/// space cut, the time `now` where the block set none. A block without a turn
/// tag leaves its attachments to wait for the next turn, and is a failure if
/// it holds anything but time lines, attachment lines and blank lines.
pub open spec fn body_close(s: Body, now: Timestamp) -> Body {
    match s.block.kind {
        Some(kind) => Body {
            done: s.done + s.waiting + s.block.attachments + seq![
                turn_of(
                    kind,
                    trim_end(s.block.content),
                    match s.block.created {
                        Some(t) => t,
                        None => now,
                    },
                ),
            ],
            waiting: Seq::empty(),
            failed: s.failed,
            block: block_start(),
            fresh: true,
        },
        None => Body {
            done: s.done,
            waiting: s.waiting + s.block.attachments,
            failed: s.failed || s.block.stray,
            block: block_start(),
            fresh: true,
        },
    }
}

/// Hands one line to the current block.
pub open spec fn body_feed(s: Body, line: Seq<char>, now: Timestamp) -> Body {
    Body { block: block_step(s.block, line, now), fresh: false, ..s }
}

/// Reads one body line that is not the last line of the text: an empty line
/// ends the block unless it is the block's first line.
pub open spec fn body_step(s: Body, line: Seq<char>, now: Timestamp) -> Body {
    if line.len() == 0 && !s.fresh {
        body_close(s, now)
    } else {
        body_feed(s, line, now)
    }
}

/// Reads body lines in order, starting from `s`, none of them the last line
/// of the text.
pub open spec fn body_scan(s: Body, lines: Seq<Seq<char>>, now: Timestamp) -> Body
    decreases lines.len(),
{
    if lines.len() == 0 {
        s
    } else {
        body_step(body_scan(s, lines.drop_last(), now), lines.last(), now)
    }
}

/// Reads the whole body: every line but the last may end a block, the last
/// line belongs to the last block.
pub open spec fn body_read(lines: Seq<Seq<char>>, now: Timestamp) -> Body
    recommends
        lines.len() > 0,
{
    body_close(
        body_feed(body_scan(body_start(), lines.drop_last(), now), lines.last(), now),
        now,
    )
}

/// Whether the body starts two lines after line `k`: line `k + 1` is empty
/// and line `k + 2` is a tag line.
pub open spec fn body_follows(lines: Seq<Seq<char>>, k: int) -> bool {
    &&& 0 <= k
    &&& k + 2 < lines.len()
    &&& lines[k + 1].len() == 0
    &&& has_prefix(lines[k + 2], tag_mark())
}

/// The first `k >= from` after which the body starts, or `-1`.
pub open spec fn header_end_from(lines: Seq<Seq<char>>, from: int) -> int
    decreases lines.len() - from,
{
    if from < 0 || from + 2 >= lines.len() {
        -1
    } else if body_follows(lines, from) {
        from
    } else {
        header_end_from(lines, from + 1)
    }
}

/// The index of the last header line of a text with a body, or `-1` for a
/// text that is all header.
pub open spec fn header_end(lines: Seq<Seq<char>>) -> int {
    header_end_from(lines, 0)
}

/// The log that a header and a body make, unless the identifier is missing
/// or malformed, a block failed, or attachments are left without a turn.
pub open spec fn assemble(h: Header, b: Body) -> Option<ChatLogView> {
    if h.bad_uuid || h.uuid is None || b.failed || b.waiting.len() > 0 {
        None
    } else {
        Some(
            ChatLogView {
                uuid: h.uuid->Some_0,
                title: h.title,
                model: h.model,
                status: h.status,
                system_prompt: match h.prompt {
                    Some(p) => Some(trim_end(p)),
                    None => None,
                },
                interactions: b.done,
            },
        )
    }
}

/// What a transcript text means: the log it describes, or `None` where the
/// text is refused. `now` stands in for every time that the text does not
/// give.
pub open spec fn parse_spec(text: Seq<char>, now: Timestamp) -> Option<ChatLogView> {
    let lines = lines_of(text);
    let k = header_end(lines);
    if k >= 0 {
        assemble(
            header_scan(header_start(), lines.take(k + 1)),
            body_read(lines.skip(k + 2), now),
        )
    } else {
        assemble(header_scan(header_start(), lines_of(trim(text))), body_start())
    }
}

/// The value of an optional character vector.
pub open spec fn chars_view(o: Option<Vec<char>>) -> Option<Seq<char>> {
    match o {
        Some(v) => Some(v@),
        None => None,
    }
}

/// The header fields while the header is being read.
pub struct HeaderAcc {
    pub uuid: Option<Uuid>,
    pub bad_uuid: bool,
    pub title: Vec<char>,
    pub model: Option<Vec<char>>,
    pub status: Option<Vec<char>>,
    pub prompt: Option<Vec<char>>,
    pub in_prompt: bool,
}

impl View for HeaderAcc {
    type V = Header;

    open spec fn view(&self) -> Header {
        Header {
            uuid: self.uuid,
            bad_uuid: self.bad_uuid,
            title: self.title@,
            model: chars_view(self.model),
            status: chars_view(self.status),
            prompt: chars_view(self.prompt),
            in_prompt: self.in_prompt,
        }
    }
}

/// The current block while the body is being read.
pub struct BlockAcc {
    pub created: Option<Timestamp>,
    pub attachments: Vec<Interaction>,
    pub kind: Option<TurnKind>,
    pub content: Vec<char>,
    pub stray: bool,
}

impl View for BlockAcc {
    type V = Block;

    open spec fn view(&self) -> Block {
        Block {
            created: self.created,
            attachments: interactions_view(self.attachments@),
            kind: self.kind,
            content: self.content@,
            stray: self.stray,
        }
    }
}

/// The interactions found while the body is being read.
pub struct BodyAcc {
    pub done: Vec<Interaction>,
    pub waiting: Vec<Interaction>,
    pub failed: bool,
    pub block: BlockAcc,
    pub fresh: bool,
}

impl View for BodyAcc {
    type V = Body;

    open spec fn view(&self) -> Body {
        Body {
            done: interactions_view(self.done@),
            waiting: interactions_view(self.waiting@),
            failed: self.failed,
            block: self.block@,
            fresh: self.fresh,
        }
    }
}

/// What follows `prefix` in `line`, if `line` begins with it.
pub fn strip_prefix(line: &Vec<char>, prefix: &str) -> (r: Option<Vec<char>>)
    ensures
        match r {
            Some(rest) => has_prefix(line@, prefix@) && rest@ == value_after(line@, prefix@),
            None => !has_prefix(line@, prefix@),
        },
{
    let p = chars_of(prefix);
    if starts_with(line, prefix) {
        let rest = slice_chars(line, p.len(), line.len());
        assert(line@.subrange(p.len() as int, line.len() as int) =~= line@.skip(p.len() as int));
        Some(rest)
    } else {
        None
    }
}

fn new_header() -> (h: HeaderAcc)
    ensures
        h@ == header_start(),
{
    HeaderAcc {
        uuid: None,
        bad_uuid: false,
        title: chars_of("Untitled"),
        model: None,
        status: Some(chars_of("local")),
        prompt: None,
        in_prompt: false,
    }
}

/// Reads one header line.
pub fn read_header_line(h: HeaderAcc, line: &Vec<char>) -> (r: HeaderAcc)
    ensures
        r@ == header_step(h@, line@),
{
    let mut h = h;
    if line.len() == 0 {
        return h;
    }
    if starts_with(line, "::>") {
        h.in_prompt = false;
        if let Some(value) = strip_prefix(line, "::>uuid:") {
            let text = string_of(&trimmed(&value));
            match Uuid::parse_str(text.as_str()) {
                Some(id) => {
                    h.uuid = Some(id);
                },
                None => {
                    h.bad_uuid = true;
                },
            }
        } else if let Some(value) = strip_prefix(line, "::>title:") {
            h.title = trimmed(&value);
        } else if let Some(value) = strip_prefix(line, "::>model:") {
            h.model = Some(trimmed(&value));
        } else if let Some(value) = strip_prefix(line, "::>status:") {
            h.status = Some(trimmed(&value));
        } else if let Some(value) = strip_prefix(line, "::>system:") {
            h.prompt = Some(trimmed_start(&value));
            h.in_prompt = true;
        }
        return h;
    }
    if h.in_prompt {
        let HeaderAcc { uuid, bad_uuid, title, model, status, prompt, in_prompt } = h;
        return match prompt {
            Some(mut p) => {
                let ghost before = p@;
                p.push('\n');
                let mut i: usize = 0;
                let ghost start = p@;
                while i < line.len()
                    invariant
                        i <= line.len(),
                        p@ == start + line@.take(i as int),
                    decreases line.len() - i,
                {
                    p.push(line[i]);
                    assert(line@.take(i + 1) =~= line@.take(i as int).push(line@[i as int]));
                    i += 1;
                }
                assert(line@.take(line.len() as int) =~= line@);
                assert(p@ =~= before + seq!['\n'] + line@);
                HeaderAcc { uuid, bad_uuid, title, model, status, prompt: Some(p), in_prompt }
            },
            None => HeaderAcc { uuid, bad_uuid, title, model, status, prompt: None, in_prompt },
        };
    }
    h
}

/// Reads the first `count` lines as header lines.
pub fn read_header(lines: &Vec<Vec<char>>, count: usize) -> (h: HeaderAcc)
    requires
        count <= lines.len(),
    ensures
        h@ == header_scan(header_start(), lines_view(lines@).take(count as int)),
{
    let mut h = new_header();
    let mut i: usize = 0;
    while i < count
        invariant
            i <= count <= lines.len(),
            h@ == header_scan(header_start(), lines_view(lines@).take(i as int)),
        decreases count - i,
    {
        proof {
            let all = lines_view(lines@);
            assert(all.take(i + 1).drop_last() =~= all.take(i as int));
            assert(all.take(i + 1).last() == lines@[i as int]@);
        }
        h = read_header_line(h, &lines[i]);
        i += 1;
    }
    h
}

/// The view of a concatenation is the concatenation of the views.
pub proof fn lemma_interactions_view_add(a: Seq<Interaction>, b: Seq<Interaction>)
    ensures
        interactions_view(a + b) == interactions_view(a) + interactions_view(b),
{
    assert(interactions_view(a + b) =~= interactions_view(a) + interactions_view(b));
}

/// The view of a pushed sequence is the pushed view.
pub proof fn lemma_interactions_view_push(a: Seq<Interaction>, x: Interaction)
    ensures
        interactions_view(a.push(x)) == interactions_view(a).push(x@),
{
    assert(interactions_view(a.push(x)) =~= interactions_view(a).push(x@));
}

fn new_block() -> (b: BlockAcc)
    ensures
        b@ == block_start(),
{
    let b = BlockAcc {
        created: None,
        attachments: Vec::new(),
        kind: None,
        content: Vec::new(),
        stray: false,
    };
    assert(b@.attachments =~= Seq::empty());
    b
}

/// Appends a line feed and `line` to `content`.
fn push_line(content: &mut Vec<char>, line: &Vec<char>)
    ensures
        final(content)@ == old(content)@ + seq!['\n'] + line@,
{
    content.push('\n');
    let ghost start = content@;
    let mut i: usize = 0;
    while i < line.len()
        invariant
            i <= line.len(),
            content@ == start + line@.take(i as int),
        decreases line.len() - i,
    {
        content.push(line[i]);
        assert(line@.take(i + 1) =~= line@.take(i as int).push(line@[i as int]));
        i += 1;
    }
    assert(line@.take(line.len() as int) =~= line@);
    assert(content@ =~= old(content)@ + seq!['\n'] + line@);
}

/// Reads one line of a block.
pub fn read_block_line(b: BlockAcc, line: &Vec<char>, now: Timestamp) -> (r: BlockAcc)
    ensures
        r@ == block_step(b@, line@, now),
{
    let mut b = b;
    if b.kind.is_some() {
        push_line(&mut b.content, line);
        return b;
    }
    if let Some(value) = strip_prefix(line, "::>created_at:") {
        let text = string_of(&trimmed(&value));
        b.created = Some(
            match Timestamp::parse_rfc3339(text.as_str()) {
                Some(t) => t,
                None => now,
            },
        );
    } else if let Some(value) = strip_prefix(line, "::>attach:") {
        let k = colon_index(&value, 0);
        assert(value@.skip(0) =~= value@);
        if k < value.len() && colon_index(&value, k + 1) == value.len() {
            let name = slice_chars(&value, 0, k);
            let mime = slice_chars(&value, k + 1, value.len());
            assert(value@.subrange(0, k as int) =~= value@.take(k as int));
            assert(value@.subrange(k + 1, value.len() as int) =~= value@.skip(k + 1));
            let ghost before = b.attachments@;
            let item = Interaction::Attachment {
                filename: string_of(&trimmed(&name)),
                mime_type: string_of(&trimmed(&mime)),
            };
            b.attachments.push(item);
            proof {
                lemma_interactions_view_push(before, item);
            }
        }
    } else if let Some(value) = strip_prefix(line, "::>user:") {
        b.kind = Some(TurnKind::User);
        b.content = trimmed_start(&value);
    } else if let Some(value) = strip_prefix(line, "::>response:") {
        b.kind = Some(TurnKind::Ai);
        b.content = trimmed_start(&value);
    } else if let Some(value) = strip_prefix(line, "::>error:") {
        b.kind = Some(TurnKind::Error);
        b.content = trimmed_start(&value);
    } else if !blank(line) {
        b.stray = true;
    }
    b
}

/// Ends the current block.
pub fn close_block(s: BodyAcc, now: Timestamp) -> (r: BodyAcc)
    ensures
        r@ == body_close(s@, now),
{
    let BodyAcc { done, waiting, failed, block, fresh } = s;
    let mut done = done;
    let mut waiting = waiting;
    let BlockAcc { created, attachments, kind, content, stray } = block;
    let mut attachments = attachments;
    let ghost before = done@;
    let ghost kept = waiting@;
    let ghost extra = attachments@;
    match kind {
        Some(kind) => {
            let created_at = match created {
                Some(t) => t,
                None => now,
            };
            let text = string_of(&trimmed_end(&content));
            let turn = match kind {
                TurnKind::User => Interaction::User { content: text, created_at },
                TurnKind::Ai => Interaction::Ai { content: text, created_at },
                TurnKind::Error => Interaction::Error { reason: text, created_at },
            };
            done.append(&mut waiting);
            done.append(&mut attachments);
            done.push(turn);
            proof {
                lemma_interactions_view_add(before, kept);
                lemma_interactions_view_add(before + kept, extra);
                lemma_interactions_view_push(before + kept + extra, turn);
                assert(interactions_view(done@) =~= interactions_view(before) + interactions_view(
                    kept,
                ) + interactions_view(extra) + seq![turn@]);
                assert(interactions_view(waiting@) =~= Seq::empty());
            }
            BodyAcc { done, waiting, failed, block: new_block(), fresh: true }
        },
        None => {
            waiting.append(&mut attachments);
            proof {
                lemma_interactions_view_add(kept, extra);
            }
            BodyAcc { done, waiting, failed: failed || stray, block: new_block(), fresh: true }
        },
    }
}

/// Reads the lines from `from` on as the body of a transcript.
pub fn read_body(lines: &Vec<Vec<char>>, from: usize, now: Timestamp) -> (s: BodyAcc)
    requires
        from < lines.len(),
    ensures
        s@ == body_read(lines_view(lines@).skip(from as int), now),
{
    let ghost body = lines_view(lines@).skip(from as int);
    let last: usize = lines.len() - 1;
    let mut s = BodyAcc {
        done: Vec::new(),
        waiting: Vec::new(),
        failed: false,
        block: new_block(),
        fresh: true,
    };
    assert(s@.done =~= Seq::empty());
    assert(s@.waiting =~= Seq::empty());
    let mut i: usize = from;
    while i < last
        invariant
            from <= i <= last,
            last == lines.len() - 1,
            body == lines_view(lines@).skip(from as int),
            s@ == body_scan(body_start(), body.drop_last().take(i - from), now),
        decreases last - i,
    {
        proof {
            let part = body.drop_last();
            assert(part.take(i + 1 - from).drop_last() =~= part.take(i - from));
            assert(part.take(i + 1 - from).last() == lines@[i as int]@);
        }
        if lines[i].len() == 0 && !s.fresh {
            s = close_block(s, now);
        } else {
            let BodyAcc { done, waiting, failed, block, fresh } = s;
            s = BodyAcc {
                done,
                waiting,
                failed,
                block: read_block_line(block, &lines[i], now),
                fresh: false,
            };
        }
        i += 1;
    }
    proof {
        assert(body.drop_last().take(last - from) =~= body.drop_last());
        assert(body.last() == lines@[last as int]@);
    }
    let BodyAcc { done, waiting, failed, block, fresh } = s;
    let fed = BodyAcc {
        done,
        waiting,
        failed,
        block: read_block_line(block, &lines[last], now),
        fresh: false,
    };
    close_block(fed, now)
}

/// The index of the last header line of a text with a body.
pub fn find_header_end(lines: &Vec<Vec<char>>) -> (r: Option<usize>)
    ensures
        match r {
            Some(k) => header_end(lines_view(lines@)) == k && k + 2 < lines.len(),
            None => header_end(lines_view(lines@)) == -1,
        },
{
    let mut k: usize = 0;
    while k < lines.len() && lines.len() - k > 2
        invariant
            header_end(lines_view(lines@)) == header_end_from(lines_view(lines@), k as int),
        decreases lines.len() - k,
    {
        if lines[k + 1].len() == 0 && starts_with(&lines[k + 2], "::>") {
            return Some(k);
        }
        k += 1;
    }
    None
}

/// Reads a transcript. `now` stands in for every time that the text does
/// not give. The text is refused with a `ParseError` where the identifier is
/// missing or malformed, where a block without a turn tag holds anything but
/// time lines, attachment lines and blank lines, or where attachments are
/// left without a turn after them.
pub fn parse_chat_text(content: &str, now: Timestamp) -> (r: Result<ChatLog, AppError>)
    ensures
        match r {
            Ok(log) => parse_spec(content@, now) == Some(log@) && canonical(log@),
            Err(e) => parse_spec(content@, now) is None && e is ParseError,
        },
{
    proof {
        lemma_parse_gives_canonical(content@, now);
    }
    let chars = chars_of(content);
    let lines = split_lines(&chars);
    let (header, body) = match find_header_end(&lines) {
        Some(k) => {
            let header = read_header(&lines, k + 1);
            let body = read_body(&lines, k + 2, now);
            (header, body)
        },
        None => {
            let header_lines = split_lines(&trimmed(&chars));
            let header = read_header(&header_lines, header_lines.len());
            assert(lines_view(header_lines@).take(header_lines.len() as int) =~= lines_view(
                header_lines@,
            ));
            let body = BodyAcc {
                done: Vec::new(),
                waiting: Vec::new(),
                failed: false,
                block: new_block(),
                fresh: true,
            };
            assert(body@.done =~= Seq::empty());
            assert(body@.waiting =~= Seq::empty());
            (header, body)
        },
    };
    if header.bad_uuid {
        return Err(AppError::ParseError(String::from_str("Invalid UUID in transcript header")));
    }
    let uuid = match header.uuid {
        Some(id) => id,
        None => {
            return Err(
                AppError::ParseError(String::from_str("Transcript header has no UUID")),
            );
        },
    };
    if body.failed {
        return Err(
            AppError::ParseError(
                String::from_str(
                    "Interaction block is missing a type tag (user, response, or error)",
                ),
            ),
        );
    }
    if body.waiting.len() > 0 {
        return Err(
            AppError::ParseError(String::from_str("Attachments are not followed by a turn")),
        );
    }
    let system_prompt = match &header.prompt {
        Some(p) => Some(string_of(&trimmed_end(p))),
        None => None,
    };
    let model = match &header.model {
        Some(m) => Some(string_of(m)),
        None => None,
    };
    let status = match &header.status {
        Some(m) => Some(string_of(m)),
        None => None,
    };
    Ok(
        ChatLog {
            uuid,
            title: string_of(&header.title),
            model,
            status,
            system_prompt,
            interactions: body.done,
        },
    )
}

/// Reads a transcript, taking the current time for every time that the text
/// does not give.
pub fn parse_chat_file(content: &str) -> (r: Result<ChatLog, AppError>)
    ensures
        exists|now: Timestamp| #[trigger] parsed_as(r, content@, now),
{
    let now = Timestamp::now();
    let r = parse_chat_text(content, now);
    assert(parsed_as(r, content@, now));
    r
}

/// Whether `r` is what reading `text` gives when the clock says `now`.
pub open spec fn parsed_as(r: Result<ChatLog, AppError>, text: Seq<char>, now: Timestamp) -> bool {
    match r {
        Ok(log) => parse_spec(text, now) == Some(log@) && canonical(log@),
        Err(e) => parse_spec(text, now) is None && e is ParseError,
    }
}

/// The text written so far, and the attachment lines that wait for the next
/// turn.
pub struct Written {
    pub text: Seq<char>,
    pub pending: Seq<char>,
}

/// The header of a log: identifier and title, then status, model and system
/// prompt where the log has them. The system prompt is written without its
/// trailing white space and without a line feed after it.
pub open spec fn header_text(log: ChatLogView) -> Seq<char> {
    tag_uuid() + " "@ + log.uuid.text() + "\n"@ + tag_title() + " "@ + log.title + "\n"@ + (
    match log.status {
        Some(status) => tag_status() + " "@ + status + "\n"@,
        None => Seq::empty(),
    }) + (match log.model {
        Some(model) => tag_model() + " "@ + model + "\n"@,
        None => Seq::empty(),
    }) + (match log.system_prompt {
        Some(prompt) => tag_system() + " "@ + trim_end(prompt),
        None => Seq::empty(),
    })
}

/// One attachment line.
pub open spec fn attach_line(filename: Seq<char>, mime_type: Seq<char>) -> Seq<char> {
    tag_attach() + " "@ + filename + " : "@ + mime_type + "\n"@
}

/// One block: a blank line, the time line, the attachment lines that were
/// waiting, then the turn tag and the content without its trailing white
/// space.
pub open spec fn block_text(
    pending: Seq<char>,
    tag: Seq<char>,
    content: Seq<char>,
    created_at: Timestamp,
) -> Seq<char> {
    "\n\n"@ + tag_created_at() + " "@ + created_at.text() + "\n"@ + pending + tag + " "@
        + trim_end(content)
}

/// Writes one interaction: an attachment waits for the next turn, a turn is
/// written as a block with the attachments that waited.
pub open spec fn write_step(w: Written, item: InteractionView) -> Written {
    match item {
        InteractionView::Attachment { filename, mime_type } => Written {
            text: w.text,
            pending: w.pending + attach_line(filename, mime_type),
        },
        InteractionView::User { content, created_at } => Written {
            text: w.text + block_text(w.pending, tag_user(), content, created_at),
            pending: Seq::empty(),
        },
        InteractionView::Ai { content, created_at } => Written {
            text: w.text + block_text(w.pending, tag_response(), content, created_at),
            pending: Seq::empty(),
        },
        InteractionView::Error { reason, created_at } => Written {
            text: w.text + block_text(w.pending, tag_error(), reason, created_at),
            pending: Seq::empty(),
        },
    }
}

/// Writes interactions in order, starting from `w`.
pub open spec fn write_all(w: Written, items: Seq<InteractionView>) -> Written
    decreases items.len(),
{
    if items.len() == 0 {
        w
    } else {
        write_step(write_all(w, items.drop_last()), items.last())
    }
}

/// `text`, with a line feed added unless it ends in one.
pub open spec fn with_final_newline(text: Seq<char>) -> Seq<char> {
    if text.len() > 0 && text.last() == '\n' {
        text
    } else {
        text.push('\n')
    }
}

/// The transcript text of a log. Attachments that no turn follows are not
/// written.
pub open spec fn format_spec(log: ChatLogView) -> Seq<char> {
    with_final_newline(
        write_all(Written { text: header_text(log), pending: Seq::empty() }, log.interactions).text,
    )
}

/// Appends `tag`, a space, `value` and a line feed to `out`.
fn push_field(out: &mut Vec<char>, tag: &str, value: &str)
    ensures
        final(out)@ == old(out)@ + (tag@ + " "@ + value@ + "\n"@),
{
    push_str(out, tag);
    push_str(out, " ");
    push_str(out, value);
    push_str(out, "\n");
    assert(out@ =~= old(out)@ + (tag@ + " "@ + value@ + "\n"@));
}

/// Appends one block to `out`.
fn push_block(
    out: &mut Vec<char>,
    pending: &Vec<char>,
    tag: &str,
    content: &str,
    created_at: &Timestamp,
)
    ensures
        final(out)@ == old(out)@ + block_text(pending@, tag@, content@, *created_at),
        created_at.prints_clean(),
{
    push_str(out, "\n\n");
    push_str(out, "::>created_at:");
    push_str(out, " ");
    push_str(out, created_at.to_rfc3339().as_str());
    push_str(out, "\n");
    push_chars(out, pending);
    push_str(out, tag);
    push_str(out, " ");
    push_chars(out, &trimmed_end(&chars_of(content)));
    assert(out@ =~= old(out)@ + block_text(pending@, tag@, content@, *created_at));
}

/// Writes a log as transcript text. Where the log is in the shape that the
/// reader gives and its times read back from their own text, the text reads
/// as the same log again, whatever the clock then says.
pub fn format_chat_log(log: &ChatLog) -> (text: String)
    ensures
        text@ == format_spec(log@),
        forall|now: Timestamp|
            canonical(log@) && times_read_back(log@) ==> #[trigger] parse_spec(text@, now) == Some(
                log@,
            ),
{
    let mut out: Vec<char> = Vec::new();
    push_field(&mut out, "::>uuid:", log.uuid.to_text().as_str());
    push_field(&mut out, "::>title:", log.title.as_str());
    let ghost base = out@;
    let ghost after_status = base + (match log@.status {
        Some(status) => tag_status() + " "@ + status + "\n"@,
        None => Seq::empty(),
    });
    if let Some(status) = &log.status {
        push_field(&mut out, "::>status:", status.as_str());
    }
    assert(out@ =~= after_status);
    let ghost after_model = after_status + (match log@.model {
        Some(model) => tag_model() + " "@ + model + "\n"@,
        None => Seq::empty(),
    });
    if let Some(model) = &log.model {
        push_field(&mut out, "::>model:", model.as_str());
    }
    assert(out@ =~= after_model);
    if let Some(prompt) = &log.system_prompt {
        push_str(&mut out, "::>system:");
        push_str(&mut out, " ");
        push_chars(&mut out, &trimmed_end(&chars_of(prompt.as_str())));
    }
    assert(out@ =~= header_text(log@));
    let mut pending: Vec<char> = Vec::new();
    let mut i: usize = 0;
    while i < log.interactions.len()
        invariant
            i <= log.interactions.len(),
            (Written { text: out@, pending: pending@ }) == write_all(
                Written { text: header_text(log@), pending: Seq::empty() },
                log@.interactions.take(i as int),
            ),
            times_print_clean(log@.interactions.take(i as int)),
        decreases log.interactions.len() - i,
    {
        proof {
            let items = log@.interactions;
            assert(items.take(i + 1).drop_last() =~= items.take(i as int));
            assert(items.take(i + 1).last() == log.interactions@[i as int]@);
        }
        match &log.interactions[i] {
            Interaction::Attachment { filename, mime_type } => {
                let ghost before = pending@;
                push_str(&mut pending, "::>attach:");
                push_str(&mut pending, " ");
                push_str(&mut pending, filename.as_str());
                push_str(&mut pending, " : ");
                push_str(&mut pending, mime_type.as_str());
                push_str(&mut pending, "\n");
                assert(pending@ =~= before + attach_line(filename@, mime_type@));
            },
            Interaction::User { content, created_at } => {
                push_block(&mut out, &pending, "::>user:", content.as_str(), created_at);
                pending = Vec::new();
            },
            Interaction::Ai { content, created_at } => {
                push_block(&mut out, &pending, "::>response:", content.as_str(), created_at);
                pending = Vec::new();
            },
            Interaction::Error { reason, created_at } => {
                push_block(&mut out, &pending, "::>error:", reason.as_str(), created_at);
                pending = Vec::new();
            },
        }
        proof {
            let done = log@.interactions.take(i + 1);
            assert forall|j: int| 0 <= j < done.len() implies (time_of(
                #[trigger] done[j],
            ) matches Some(t) ==> t.prints_clean()) by {
                if j < i {
                    assert(done[j] == log@.interactions.take(i as int)[j]);
                }
            }
        }
        i += 1;
    }
    assert(log@.interactions.take(log.interactions.len() as int) =~= log@.interactions);
    if out.len() == 0 || out[out.len() - 1] != '\n' {
        out.push('\n');
    }
    proof {
        if canonical(log@) && times_read_back(log@) {
            assert(prints_well(log@));
            assert forall|now: Timestamp| #[trigger] parse_spec(out@, now) == Some(log@) by {
                lemma_format_parse_roundtrip(log@, now);
            }
        }
    }
    string_of(&out)
}

/// The index of the last user turn, or `-1` where there is none.
pub open spec fn last_user(items: Seq<InteractionView>) -> int
    decreases items.len(),
{
    if items.len() == 0 {
        -1
    } else if items.last() is User {
        items.len() - 1
    } else {
        last_user(items.drop_last())
    }
}

/// The interactions up to and including the last user turn; all of them
/// where there is no user turn.
pub open spec fn truncated(items: Seq<InteractionView>) -> Seq<InteractionView> {
    if last_user(items) >= 0 {
        items.take(last_user(items) + 1)
    } else {
        items
    }
}

/// The log without what follows its last user turn.
pub open spec fn truncate_spec(log: ChatLogView) -> ChatLogView {
    ChatLogView { interactions: truncated(log.interactions), ..log }
}

/// Where the last user turn stands: at an index within the sequence that
/// holds a user turn, with no user turn after it.
pub proof fn lemma_last_user(items: Seq<InteractionView>)
    ensures
        -1 <= last_user(items) < items.len(),
        last_user(items) >= 0 ==> items[last_user(items)] is User,
        forall|j: int| last_user(items) < j < items.len() ==> !(#[trigger] items[j] is User),
    decreases items.len(),
{
    if items.len() > 0 && !(items.last() is User) {
        lemma_last_user(items.drop_last());
        assert forall|j: int| last_user(items) < j < items.len() implies !(
        #[trigger] items[j] is User) by {
            if j < items.len() - 1 {
                assert(items.drop_last()[j] == items[j]);
            }
        }
    }
}

/// Removes every interaction after the last user turn. A log without a user
/// turn is left as it is. Cutting again changes nothing.
pub fn truncate_after_last_user(log: &mut ChatLog)
    ensures
        final(log)@ == truncate_spec(old(log)@),
        truncate_spec(final(log)@) == final(log)@,
{
    let ghost items = log@.interactions;
    let mut n: usize = log.interactions.len();
    assert(items.take(n as int) =~= items);
    while n > 0
        invariant
            n <= log.interactions.len(),
            *log == *old(log),
            items == log@.interactions,
            last_user(items) == last_user(items.take(n as int)),
        decreases n,
    {
        proof {
            assert(items.take(n as int).drop_last() =~= items.take(n - 1));
            assert(items.take(n as int).last() == log.interactions@[n - 1]@);
        }
        match &log.interactions[n - 1] {
            Interaction::User { .. } => {
                log.interactions.truncate(n);
                proof {
                    assert(log@.interactions =~= items.take(n as int));
                    lemma_truncate_idempotent(old(log)@);
                }
                return ;
            },
            _ => {},
        }
        n -= 1;
    }
    proof {
        assert(items.take(0).len() == 0);
        lemma_truncate_idempotent(old(log)@);
    }
}

/// Cutting a log twice gives what cutting it once gives.
pub proof fn lemma_truncate_idempotent(log: ChatLogView)
    ensures
        truncate_spec(truncate_spec(log)) == truncate_spec(log),
{
    let items = log.interactions;
    lemma_last_user(items);
    let k = last_user(items);
    if k >= 0 {
        let cut = items.take(k + 1);
        assert(cut.last() is User);
        assert(last_user(cut) == k);
        assert(cut.take(k + 1) =~= cut);
    }
}

/// Cutting a log that holds no user turn changes nothing.
pub proof fn lemma_truncate_without_user(log: ChatLogView)
    requires
        forall|j: int| 0 <= j < log.interactions.len() ==> !(#[trigger] log.interactions[j] is User),
    ensures
        truncate_spec(log) == log,
{
    lemma_last_user(log.interactions);
}

/// Whether every time of the log prints as a text that reads back as that
/// time.
pub fn check_times_read_back(log: &ChatLog) -> (r: bool)
    ensures
        r == times_read_back(log@),
{
    let mut i: usize = 0;
    while i < log.interactions.len()
        invariant
            i <= log.interactions.len(),
            forall|j: int|
                0 <= j < i ==> (time_of(#[trigger] log@.interactions[j]) matches Some(t)
                    ==> t.reads_back()),
        decreases log.interactions.len() - i,
    {
        assert(log@.interactions[i as int] == log.interactions@[i as int]@);
        let ok = match &log.interactions[i] {
            Interaction::User { created_at, .. } => created_at.check_reads_back(),
            Interaction::Ai { created_at, .. } => created_at.check_reads_back(),
            Interaction::Error { created_at, .. } => created_at.check_reads_back(),
            Interaction::Attachment { .. } => true,
        };
        if !ok {
            return false;
        }
        i += 1;
    }
    true
}

/// Whether a line opens a turn: it begins with a user, response or error
/// tag.
pub open spec fn opens_turn(line: Seq<char>) -> bool {
    has_prefix(line, tag_user()) || has_prefix(line, tag_response()) || has_prefix(
        line,
        tag_error(),
    )
}

/// The numbers of the lines that open a turn, counted from zero, in rising
/// order.
pub open spec fn turn_lines(lines: Seq<Seq<char>>) -> Seq<int>
    decreases lines.len(),
{
    if lines.len() == 0 {
        Seq::empty()
    } else if opens_turn(lines.last()) {
        turn_lines(lines.drop_last()).push(lines.len() - 1)
    } else {
        turn_lines(lines.drop_last())
    }
}

/// The values of a sequence of line numbers.
pub open spec fn numbers_view(numbers: Seq<usize>) -> Seq<int> {
    numbers.map_values(|n: usize| n as int)
}

/// Where the turns of a transcript begin: the numbers of the lines that open
/// a turn, for an editor to jump by.
pub fn block_positions(content: &str) -> (positions: Vec<usize>)
    ensures
        numbers_view(positions@) == turn_lines(lines_of(content@)),
{
    let lines = split_lines(&chars_of(content));
    let ghost all = lines_view(lines@);
    let mut positions: Vec<usize> = Vec::new();
    let mut i: usize = 0;
    assert(numbers_view(positions@) =~= turn_lines(all.take(0)));
    while i < lines.len()
        invariant
            i <= lines.len(),
            all == lines_view(lines@),
            numbers_view(positions@) == turn_lines(all.take(i as int)),
        decreases lines.len() - i,
    {
        proof {
            assert(all.take(i + 1).drop_last() =~= all.take(i as int));
            assert(all.take(i + 1).last() == lines@[i as int]@);
        }
        if starts_with(&lines[i], "::>user:") || starts_with(&lines[i], "::>response:")
            || starts_with(&lines[i], "::>error:") {
            let ghost before = numbers_view(positions@);
            positions.push(i);
            assert(numbers_view(positions@) =~= before.push(i as int));
        }
        i += 1;
    }
    assert(all.take(lines.len() as int) =~= all);
    positions
}

} // verus!
