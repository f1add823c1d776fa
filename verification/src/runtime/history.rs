//! What the stored messages of a session say.
use crate::db;
use crate::db::BlockSource;
use crate::db::FormView;
use crate::db::SourceView;
use crate::db::StoredMessage;
use crate::json;
use crate::json::Json;
use crate::json::JsonView;
use crate::runtime::service;
use crate::types::message;
use crate::types::message::ContentBlock;
use crate::types::message::Message;
use crate::types::message::MessageView;
use crate::types::message::Role;
use vstd::prelude::*;

verus! {

/// A stored message whose blocks are still to be read.
#[derive(Debug, PartialEq, Eq)]
pub struct LoadedRow {
    pub role: Role,
    pub blocks: Vec<BlockSource>,
}

#[verifier::ext_equal]
pub struct RowView {
    pub role: Role,
    pub blocks: Seq<SourceView>,
}

pub open spec fn sources_view(blocks: Seq<BlockSource>) -> Seq<SourceView> {
    Seq::new(blocks.len(), |i: int| blocks[i]@)
}

impl View for LoadedRow {
    type V = RowView;

    open spec fn view(&self) -> RowView {
        RowView { role: self.role, blocks: sources_view(self.blocks@) }
    }
}

/// Where the blocks of a row are read from; `parsed` is the value that its content spells. A row
/// of an unknown role, and one whose content is no list, says nothing.
pub open spec fn row_plan(
    role: Seq<char>,
    parsed: Option<JsonView>,
    blocks_dir: Seq<char>,
) -> Option<RowView> {
    match (service::role_named(role), parsed) {
        (Some(r), Some(JsonView::Array(values))) => Some(
            RowView {
                role: r,
                blocks: Seq::new(values.len(), |i: int| db::source_of(values[i], blocks_dir)),
            },
        ),
        _ => None,
    }
}

pub fn plan_row(role: &str, parsed: &Option<Json>, blocks_dir: &str) -> (r: Option<LoadedRow>)
    ensures
        match r {
            Some(row) => row_plan(
                role@,
                match *parsed {
                    Some(j) => Some(j@),
                    None => None,
                },
                blocks_dir@,
            ) == Some(row@),
            None => row_plan(
                role@,
                match *parsed {
                    Some(j) => Some(j@),
                    None => None,
                },
                blocks_dir@,
            ) is None,
        },
{
    broadcast use json::lemma_array_view;

    match (service::stored_role(role), parsed) {
        (Some(role), Some(Json::Array(values))) => {
            let blocks = db::load_blocks(values, blocks_dir);
            let ghost all = json::list_view(values@);
            assert(parsed->0@ == JsonView::Array(all));
            assert(sources_view(blocks@) =~= Seq::new(
                all.len(),
                |i: int| db::source_of(all[i], blocks_dir@),
            ));
            Some(LoadedRow { role, blocks })
        },
        _ => None,
    }
}

/// A message that was stored is loaded with its blocks, one by one: each from the row, where a
/// value that says the same stands, or from a file that holds its text.
pub proof fn law_stored_message_is_loaded(
    role: Seq<char>,
    content: Seq<char>,
    files: Seq<(Seq<char>, Seq<char>)>,
    blocks_dir: Seq<char>,
    blocks: Seq<FormView>,
)
    requires
        service::role_named(role) is Some,
        db::reads_back(content, files, blocks_dir, blocks),
    ensures
        row_plan(role, json::json_of_text(content), blocks_dir) matches Some(row) && row.role
            == service::role_named(role)->0 && row.blocks.len() == blocks.len() && forall|i: int|
            0 <= i < blocks.len() ==> match #[trigger] row.blocks[i] {
                SourceView::Row(v) => json::same_value(v, blocks[i].value),
                SourceView::File(p) => db::content_at(files, p) == Some(blocks[i].text),
            },
{
    let values = json::json_of_text(content)->0->Array_0;
    let row = row_plan(role, json::json_of_text(content), blocks_dir)->0;
    assert forall|i: int| 0 <= i < blocks.len() implies match #[trigger] row.blocks[i] {
        SourceView::Row(v) => json::same_value(v, blocks[i].value),
        SourceView::File(p) => db::content_at(files, p) == Some(blocks[i].text),
    } by {
        assert(row.blocks[i] == db::source_of(values[i], blocks_dir));
    }
}

/// The plans of the first `n` rows that say something.
pub open spec fn row_plans(rows: Seq<StoredMessage>, blocks_dir: Seq<char>, n: int) -> Seq<RowView>
    decreases n,
{
    if n <= 0 {
        Seq::empty()
    } else {
        let done = row_plans(rows, blocks_dir, n - 1);
        match row_plan(
            rows[n - 1].role@,
            json::json_of_text(rows[n - 1].content@),
            blocks_dir,
        ) {
            Some(row) => done.push(row),
            None => done,
        }
    }
}

pub open spec fn loaded_view(rows: Seq<LoadedRow>) -> Seq<RowView> {
    Seq::new(rows.len(), |i: int| rows[i]@)
}

/// The stored messages of a session, in order. Rows that cannot be read are left out.
pub fn load_messages_from_db(rows: &Vec<StoredMessage>, blocks_dir: &str) -> (r: Vec<LoadedRow>)
    ensures
        loaded_view(r@) == row_plans(rows@, blocks_dir@, rows@.len() as int),
{
    let mut out: Vec<LoadedRow> = Vec::new();
    let mut i: usize = 0;
    assert(loaded_view(out@) =~= Seq::empty());
    while i < rows.len()
        invariant
            i <= rows@.len(),
            loaded_view(out@) == row_plans(rows@, blocks_dir@, i as int),
        decreases rows@.len() - i,
    {
        let parsed = json::parse_json(rows[i].content.as_str());
        match plan_row(rows[i].role.as_str(), &parsed, blocks_dir) {
            Some(row) => {
                let ghost before = loaded_view(out@);
                out.push(row);
                assert(loaded_view(out@) =~= before.push(row@));
            },
            None => {},
        }
        i = i + 1;
    }
    out
}

/// The messages whose blocks could be read, among the first `n`.
pub open spec fn readable(rows: Seq<(Role, Option<Vec<ContentBlock>>)>, n: int) -> Seq<MessageView>
    decreases n,
{
    if n <= 0 {
        Seq::empty()
    } else {
        let done = readable(rows, n - 1);
        match rows[n - 1].1 {
            Some(blocks) => done.push(
                MessageView { role: rows[n - 1].0, content: message::blocks_view(blocks@) },
            ),
            None => done,
        }
    }
}

/// The messages of a session from what was read of their blocks. One of which a block could not
/// be read is left out.
pub fn messages_of_rows(rows: Vec<(Role, Option<Vec<ContentBlock>>)>) -> (r: Vec<Message>)
    ensures
        message::messages_view(r@) == readable(rows@, rows@.len() as int),
{
    let ghost all = rows@;
    let n: usize = rows.len();
    let mut rows = rows;
    let mut out: Vec<Message> = Vec::new();
    let mut i: usize = 0;
    assert(message::messages_view(out@) =~= Seq::empty());
    while i < n
        invariant
            i <= n,
            n == all.len(),
            rows@ == all.skip(i as int),
            message::messages_view(out@) == readable(all, i as int),
        decreases n - i,
    {
        let (role, blocks) = rows.remove(0);
        assert(rows@ =~= all.skip(i + 1));
        match blocks {
            Some(blocks) => {
                let ghost before = message::messages_view(out@);
                out.push(Message::new(role, blocks));
                assert(message::messages_view(out@) =~= before.push(out@.last()@));
            },
            None => {},
        }
        i = i + 1;
    }
    out
}

} // verus!
