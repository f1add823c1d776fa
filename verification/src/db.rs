//! What is stored of sessions and messages.
use crate::json;
use crate::json::Json;
use crate::json::JsonView;
use crate::paths;
use crate::text;
use vstd::prelude::*;

verus! {

/// A block whose JSON text has more bytes than this is kept in a file of its own.
pub const BLOCK_SIZE_THRESHOLD: usize = 10240;

/// A stored session. Times are seconds since the Unix epoch.
#[derive(Debug, PartialEq, Eq)]
pub struct Session {
    pub id: String,
    pub project_path: String,
    pub parent_session_id: Option<String>,
    pub spawn_tool_use_id: Option<String>,
    pub session_type: String,
    pub agent_label: Option<String>,
    pub provider: String,
    pub model: String,
    pub thinking_effort: Option<String>,
    pub title: Option<String>,
    pub message_count: i64,
    pub created_at: i64,
    pub updated_at: i64,
}

/// A stored message.
#[derive(Debug, PartialEq, Eq)]
pub struct StoredMessage {
    pub id: i64,
    pub session_id: String,
    pub role: String,
    pub content: String,
    pub kind: String,
    pub created_at: i64,
}

/// How many bytes `c` takes in UTF-8.
pub open spec fn utf8_width(c: char) -> int {
    let n = c as u32;
    if n < 0x80 {
        1
    } else if n < 0x800 {
        2
    } else if n < 0x10000 {
        3
    } else {
        4
    }
}

/// How many bytes `s` takes in UTF-8.
pub open spec fn byte_count(s: Seq<char>) -> int
    decreases s.len(),
{
    if s.len() == 0 {
        0
    } else {
        byte_count(s.drop_last()) + utf8_width(s.last())
    }
}

proof fn lemma_byte_count(s: Seq<char>, n: int)
    requires
        0 <= n <= s.len(),
    ensures
        byte_count(s.take(n)) <= byte_count(s),
    decreases s.len() - n,
{
    if n < s.len() {
        assert(s.take(n + 1).drop_last() =~= s.take(n));
        lemma_byte_count(s, n + 1);
    } else {
        assert(s.take(n) =~= s);
    }
}

/// Whether `s` takes more than `limit` bytes.
fn longer_than(s: &str, limit: usize) -> (r: bool)
    requires
        limit < 0x1000_0000,
    ensures
        r == (byte_count(s@) > limit),
{
    let chars = text::chars_of(s);
    let mut total: usize = 0;
    let mut i: usize = 0;
    while i < chars.len()
        invariant
            chars@ == s@,
            i <= s@.len(),
            limit < 0x1000_0000,
            total == byte_count(s@.take(i as int)),
            total <= limit,
        decreases s@.len() - i,
    {
        assert(s@.take(i + 1).drop_last() =~= s@.take(i as int));
        let n: u32 = chars[i] as u32;
        let w: usize = if n < 0x80 {
            1
        } else if n < 0x800 {
            2
        } else if n < 0x10000 {
            3
        } else {
            4
        };
        total = total + w;
        if total > limit {
            proof {
                lemma_byte_count(s@, i + 1);
            }
            return true;
        }
        i = i + 1;
    }
    assert(s@.take(s@.len() as int) =~= s@);
    false
}

/// The members of a block that stay in the row when the block is kept in a file.
pub open spec fn kept_keys() -> Seq<Seq<char>> {
    seq!["type"@, "id"@, "name"@, "tool_use_id"@, "is_error"@]
}

/// The members of `value` under the first `n` of the keys that stay, where it has them.
pub open spec fn kept_members(value: JsonView, n: int) -> Seq<(Seq<char>, JsonView)>
    decreases n,
{
    if n <= 0 {
        Seq::empty()
    } else {
        let done = kept_members(value, n - 1);
        match value.member(kept_keys()[n - 1]) {
            Some(v) => done.push((kept_keys()[n - 1], v)),
            None => done,
        }
    }
}

/// What stands in the row for a block kept in the file `file_id`.
pub open spec fn reference_view(value: JsonView, file_id: Seq<char>) -> JsonView {
    JsonView::Object(kept_members(value, 5).push(("file"@, JsonView::Str(file_id))))
}

/// What is stored of a block: `value` is its JSON value and `json_text` the text of that.
/// `file_id` names the file it goes to where it is too large for the row.
pub open spec fn stored_view(value: JsonView, json_text: Seq<char>, file_id: Seq<char>) -> JsonView {
    if byte_count(json_text) > BLOCK_SIZE_THRESHOLD {
        reference_view(value, file_id)
    } else {
        value
    }
}

/// Whether a block goes to a file of its own.
pub fn overflows(json_text: &str) -> (r: bool)
    ensures
        r == (byte_count(json_text@) > BLOCK_SIZE_THRESHOLD),
{
    longer_than(json_text, BLOCK_SIZE_THRESHOLD)
}

fn keep_member(entries: &mut Vec<(String, Json)>, value: &Json, key: &str)
    ensures
        json::entries_view(final(entries)@) == (match value@.member(key@) {
            Some(v) => json::entries_view(old(entries)@).push((key@, v)),
            None => json::entries_view(old(entries)@),
        }),
{
    match value.get(key) {
        Some(v) => {
            json::put(entries, key, v.copy());
        },
        None => {},
    }
}

/// The value that is stored for a block.
pub fn prepare_block(value: &Json, json_text: &str, file_id: &str) -> (r: Json)
    ensures
        r@ == stored_view(value@, json_text@, file_id@),
{
    if !overflows(json_text) {
        return value.copy();
    }
    let mut e: Vec<(String, Json)> = Vec::new();
    proof {
        json::lemma_empty_views();
        reveal_with_fuel(kept_members, 6);
        let keys = kept_keys();
        assert(keys[0] == "type"@ && keys[1] == "id"@ && keys[2] == "name"@ && keys[3]
            == "tool_use_id"@ && keys[4] == "is_error"@);
    }
    keep_member(&mut e, value, "type");
    assert(json::entries_view(e@) == kept_members(value@, 1));
    keep_member(&mut e, value, "id");
    assert(json::entries_view(e@) == kept_members(value@, 2));
    keep_member(&mut e, value, "name");
    assert(json::entries_view(e@) == kept_members(value@, 3));
    keep_member(&mut e, value, "tool_use_id");
    assert(json::entries_view(e@) == kept_members(value@, 4));
    keep_member(&mut e, value, "is_error");
    assert(json::entries_view(e@) == kept_members(value@, 5));
    json::put(&mut e, "file", json::str_value(file_id));
    json::object(e)
}

/// The file that a stored block is kept in, if it is.
pub open spec fn file_of(stored: JsonView) -> Option<Seq<char>> {
    match stored.member("file"@) {
        Some(v) => v.str_value(),
        None => None,
    }
}

pub fn block_file(stored: &Json) -> (r: Option<String>)
    ensures
        json::opt_view(r) == file_of(stored@),
{
    match stored.get("file") {
        Some(v) => v.as_str(),
        None => None,
    }
}

/// Where below `blocks_dir` the block with the given file is kept.
pub fn block_path(blocks_dir: &str, file_id: &str) -> (r: String)
    ensures
        r@ == file_path(blocks_dir@, file_id@),
{
    let dir = paths::join(blocks_dir, file_id);
    paths::join(dir.as_str(), "block.json")
}

/// Reading a stored block finds what writing it left: the file that a large block went to, and
/// no file for a small one, which stands in the row as it is. A small block that has a text
/// member called `file` of its own would be taken for a reference; blocks have none.
pub proof fn law_stored_block_is_found_again(
    value: JsonView,
    json_text: Seq<char>,
    file_id: Seq<char>,
)
    requires
        file_of(value) is None,
    ensures
        byte_count(json_text) > BLOCK_SIZE_THRESHOLD ==> file_of(
            stored_view(value, json_text, file_id),
        ) == Some(file_id),
        byte_count(json_text) <= BLOCK_SIZE_THRESHOLD ==> stored_view(value, json_text, file_id)
            == value && file_of(stored_view(value, json_text, file_id)) is None,
{
    let e = kept_members(value, 5).push(("file"@, JsonView::Str(file_id)));
    assert(e.last() == ("file"@, JsonView::Str(file_id)));
}

/// A block as it is to be stored: its JSON value and the text of that.
#[derive(Debug, PartialEq, Eq)]
pub struct BlockForm {
    pub value: Json,
    pub text: String,
}

#[verifier::ext_equal]
pub struct FormView {
    pub value: JsonView,
    pub text: Seq<char>,
}

impl View for BlockForm {
    type V = FormView;

    open spec fn view(&self) -> FormView {
        FormView { value: self.value@, text: self.text@ }
    }
}

pub open spec fn forms_view(blocks: Seq<BlockForm>) -> Seq<FormView> {
    Seq::new(blocks.len(), |i: int| blocks[i]@)
}

/// A file that is to be written: its path and its content.
#[derive(Debug, PartialEq, Eq)]
pub struct BlockFile {
    pub path: String,
    pub content: String,
}

pub open spec fn files_view(files: Seq<BlockFile>) -> Seq<(Seq<char>, Seq<char>)> {
    Seq::new(files.len(), |i: int| (files[i].path@, files[i].content@))
}

/// What is stored of the blocks of a message.
#[derive(Debug, PartialEq, Eq)]
pub struct PreparedBlocks {
    /// What stands in the row, one value for each block.
    pub stored: Vec<Json>,
    /// The files of the blocks that are too large for it.
    pub files: Vec<BlockFile>,
}

/// Where the block with the given file is kept.
pub open spec fn file_path(blocks_dir: Seq<char>, file_id: Seq<char>) -> Seq<char> {
    paths::joined_path(paths::joined_path(blocks_dir, file_id), "block.json"@)
}

/// What stands in the row for the blocks; a block that is kept in a file has the file id of its
/// place.
pub open spec fn stored_values(blocks: Seq<FormView>, ids: Seq<Seq<char>>) -> Seq<JsonView> {
    Seq::new(blocks.len(), |i: int| stored_view(blocks[i].value, blocks[i].text, ids[i]))
}

/// The files of the first `n` blocks.
pub open spec fn block_files(
    blocks: Seq<FormView>,
    ids: Seq<Seq<char>>,
    blocks_dir: Seq<char>,
    n: int,
) -> Seq<(Seq<char>, Seq<char>)>
    decreases n,
{
    if n <= 0 {
        Seq::empty()
    } else {
        let done = block_files(blocks, ids, blocks_dir, n - 1);
        if byte_count(blocks[n - 1].text) > BLOCK_SIZE_THRESHOLD {
            done.push((file_path(blocks_dir, ids[n - 1]), blocks[n - 1].text))
        } else {
            done
        }
    }
}

/// Prepares the blocks of a message to be stored. `file_ids` has a fresh id for each block.
pub fn prepare_blocks(blocks: &Vec<BlockForm>, file_ids: &Vec<String>, blocks_dir: &str) -> (r:
    PreparedBlocks)
    requires
        file_ids@.len() >= blocks@.len(),
    ensures
        json::list_view(r.stored@) == stored_values(forms_view(blocks@), text::views(file_ids@)),
        files_view(r.files@) == block_files(
            forms_view(blocks@),
            text::views(file_ids@),
            blocks_dir@,
            blocks@.len() as int,
        ),
{
    let ghost all = forms_view(blocks@);
    let ghost ids = text::views(file_ids@);
    let mut stored: Vec<Json> = Vec::new();
    let mut files: Vec<BlockFile> = Vec::new();
    let mut i: usize = 0;
    assert(files_view(files@) =~= Seq::empty());
    while i < blocks.len()
        invariant
            i <= blocks@.len() <= file_ids@.len(),
            all == forms_view(blocks@),
            ids == text::views(file_ids@),
            stored@.len() == i,
            forall|k: int|
                0 <= k < i ==> (#[trigger] stored@[k])@ == stored_view(
                    all[k].value,
                    all[k].text,
                    ids[k],
                ),
            files_view(files@) == block_files(all, ids, blocks_dir@, i as int),
        decreases blocks@.len() - i,
    {
        let value = &blocks[i].value;
        let content = blocks[i].text.as_str();
        let id = file_ids[i].as_str();
        assert(all[i as int] == blocks@[i as int]@);
        assert(ids[i as int] == id@);
        stored.push(prepare_block(value, content, id));
        if overflows(content) {
            let ghost before = files_view(files@);
            let path = block_path(blocks_dir, id);
            files.push(BlockFile { path, content: text::copy(content) });
            assert(files_view(files@) =~= before.push((file_path(blocks_dir@, id@), content@)));
        }
        i = i + 1;
    }
    assert(json::list_view(stored@) =~= stored_values(all, ids));
    PreparedBlocks { stored, files }
}

/// Where a stored block is read from.
#[derive(Debug, PartialEq, Eq)]
pub enum BlockSource {
    /// It stands in the row.
    Row(Json),
    /// It is in the file at this path.
    File(String),
}

#[verifier::ext_equal]
pub enum SourceView {
    Row(JsonView),
    File(Seq<char>),
}

impl View for BlockSource {
    type V = SourceView;

    open spec fn view(&self) -> SourceView {
        match *self {
            BlockSource::Row(j) => SourceView::Row(j@),
            BlockSource::File(p) => SourceView::File(p@),
        }
    }
}

pub open spec fn source_of(stored: JsonView, blocks_dir: Seq<char>) -> SourceView {
    match file_of(stored) {
        Some(id) => SourceView::File(file_path(blocks_dir, id)),
        None => SourceView::Row(stored),
    }
}

/// Where the blocks of a stored message are read from, in order.
pub fn load_blocks(stored: &Vec<Json>, blocks_dir: &str) -> (r: Vec<BlockSource>)
    ensures
        r@.len() == stored@.len(),
        forall|i: int|
            0 <= i < r@.len() ==> (#[trigger] r@[i])@ == source_of(stored@[i]@, blocks_dir@),
{
    let mut out: Vec<BlockSource> = Vec::new();
    let mut i: usize = 0;
    while i < stored.len()
        invariant
            i <= stored@.len(),
            out@.len() == i,
            forall|k: int|
                0 <= k < i ==> (#[trigger] out@[k])@ == source_of(stored@[k]@, blocks_dir@),
        decreases stored@.len() - i,
    {
        let source = match block_file(&stored[i]) {
            Some(id) => BlockSource::File(block_path(blocks_dir, id.as_str())),
            None => BlockSource::Row(stored[i].copy()),
        };
        out.push(source);
        i = i + 1;
    }
    out
}

/// The content of the file at `path` once `files` have been written in order.
pub open spec fn content_at(files: Seq<(Seq<char>, Seq<char>)>, path: Seq<char>) -> Option<Seq<char>>
    decreases files.len(),
{
    if files.len() == 0 {
        None
    } else if files.last().0 == path {
        Some(files.last().1)
    } else {
        content_at(files.drop_last(), path)
    }
}

proof fn lemma_file_stays(
    blocks: Seq<FormView>,
    ids: Seq<Seq<char>>,
    dir: Seq<char>,
    i: int,
    n: int,
)
    requires
        0 <= i < n <= blocks.len() <= ids.len(),
        byte_count(blocks[i].text) > BLOCK_SIZE_THRESHOLD,
        forall|a: int, b: int|
            0 <= a < b < blocks.len() ==> file_path(dir, #[trigger] ids[a]) != file_path(
                dir,
                #[trigger] ids[b],
            ),
    ensures
        content_at(block_files(blocks, ids, dir, n), file_path(dir, ids[i])) == Some(
            blocks[i].text,
        ),
    decreases n - i,
{
    let done = block_files(blocks, ids, dir, n - 1);
    let all = block_files(blocks, ids, dir, n);
    if n == i + 1 {
        assert(all.last() == (file_path(dir, ids[i]), blocks[i].text));
    } else {
        lemma_file_stays(blocks, ids, dir, i, n - 1);
        if byte_count(blocks[n - 1].text) > BLOCK_SIZE_THRESHOLD {
            assert(all.drop_last() =~= done);
            assert(file_path(dir, ids[i]) != file_path(dir, ids[n - 1]));
        }
    }
}

/// Reading the blocks of a message finds what storing them left, block by block: the value
/// itself where it stands in the row, and else a file that holds the text of the block. The
/// files have to have paths of their own, and no block a text member called `file`.
pub proof fn law_stored_blocks_are_read_back(
    blocks: Seq<FormView>,
    ids: Seq<Seq<char>>,
    dir: Seq<char>,
    i: int,
)
    requires
        0 <= i < blocks.len() <= ids.len(),
        file_of(blocks[i].value) is None,
        forall|a: int, b: int|
            0 <= a < b < blocks.len() ==> file_path(dir, #[trigger] ids[a]) != file_path(
                dir,
                #[trigger] ids[b],
            ),
    ensures
        match source_of(stored_values(blocks, ids)[i], dir) {
            SourceView::Row(v) => v == blocks[i].value,
            SourceView::File(p) => content_at(
                block_files(blocks, ids, dir, blocks.len() as int),
                p,
            ) == Some(blocks[i].text),
        },
{
    law_stored_block_is_found_again(blocks[i].value, blocks[i].text, ids[i]);
    if byte_count(blocks[i].text) > BLOCK_SIZE_THRESHOLD {
        lemma_file_stays(blocks, ids, dir, i, blocks.len() as int);
    }
}

/// A message that is to be stored.
#[derive(Debug, PartialEq, Eq)]
pub struct NewMessage {
    pub session_id: String,
    pub role: String,
    pub blocks: Vec<BlockForm>,
    pub kind: String,
    pub created_at: i64,
    /// Where the blocks that are too large for the row go.
    pub blocks_dir: String,
}

/// The text that is stored as the content of a message.
pub fn content_text(stored: Vec<Json>) -> (r: String)
    ensures
        r@ == json::text_of_json(JsonView::Array(json::list_view(stored@))),
        json::writable(
            JsonView::Array(json::list_view(stored@)),
            json::MAX_DEPTH as nat,
        ) ==> json::says(r@, JsonView::Array(json::list_view(stored@))),
{
    let all = json::array(stored);
    json::print_json(&all)
}

/// Whether blocks can be stored so that they are certain to be read back: their values are
/// written as they are, none has a text member called `file`, and the files have paths of their
/// own.
pub open spec fn storable(blocks: Seq<FormView>, ids: Seq<Seq<char>>, dir: Seq<char>) -> bool {
    &&& blocks.len() <= ids.len()
    &&& forall|i: int|
        0 <= i < blocks.len() ==> json::writable(
            (#[trigger] blocks[i]).value,
            (json::MAX_DEPTH - 1) as nat,
        ) && file_of(blocks[i].value) is None
    &&& forall|a: int, b: int|
        0 <= a < b < blocks.len() ==> file_path(dir, #[trigger] ids[a]) != file_path(
            dir,
            #[trigger] ids[b],
        )
}

/// Whether the content of a row and the files next to it say what the blocks say, block by
/// block: a value that says the same stands in the row, or the text of the block in a file.
pub open spec fn reads_back(
    content: Seq<char>,
    files: Seq<(Seq<char>, Seq<char>)>,
    dir: Seq<char>,
    blocks: Seq<FormView>,
) -> bool {
    json::json_of_text(content) matches Some(JsonView::Array(values)) && values.len()
        == blocks.len() && forall|i: int|
        0 <= i < values.len() ==> match source_of(#[trigger] values[i], dir) {
            SourceView::Row(v) => json::same_value(v, blocks[i].value),
            SourceView::File(p) => content_at(files, p) == Some(blocks[i].text),
        }
}

proof fn lemma_kept_members(value: JsonView, n: int, depth: nat)
    requires
        0 <= n <= 5,
        depth > 0,
        json::writable(value, depth),
    ensures
        json::distinct_keys(kept_members(value, n)),
        forall|i: int|
            0 <= i < kept_members(value, n).len() ==> {
                &&& json::writable((#[trigger] kept_members(value, n)[i]).1, (depth - 1) as nat)
                &&& exists|k: int| 0 <= k < n && kept_members(value, n)[i].0 == kept_keys()[k]
            },
    decreases n,
{
    if n > 0 {
        lemma_kept_members(value, n - 1, depth);
        lemma_kept_keys_differ();
        let key = kept_keys()[n - 1];
        let done = kept_members(value, n - 1);
        let all = kept_members(value, n);
        match value {
            JsonView::Object(entries) => {
                if value.member(key) is Some {
                    let at = json::lemma_lookup_found(entries, key);
                    assert(json::writable(entries[at].1, (depth - 1) as nat));
                    assert(all =~= done.push((key, value.member(key)->0)));
                }
            },
            _ => {},
        }
        assert forall|i: int| 0 <= i < all.len() implies {
            &&& json::writable((#[trigger] all[i]).1, (depth - 1) as nat)
            &&& exists|k: int| 0 <= k < n && all[i].0 == kept_keys()[k]
        } by {
            if i < done.len() {
                assert(all[i] == done[i]);
                let k = choose|k: int| 0 <= k < n - 1 && done[i].0 == kept_keys()[k];
                assert(all[i].0 == kept_keys()[k]);
            } else {
                assert(all[i].0 == kept_keys()[n - 1]);
            }
        }
        assert forall|i: int, j: int| 0 <= i < j < all.len() implies (#[trigger] all[i]).0 != (
        #[trigger] all[j]).0 by {
            assert(all[i] == done[i]);
            if j == done.len() {
                let k = choose|k: int| 0 <= k < n - 1 && done[i].0 == kept_keys()[k];
                assert(kept_keys()[k] != kept_keys()[n - 1]);
            } else {
                assert(all[j] == done[j]);
            }
        }
    }
}

proof fn lemma_kept_keys_differ()
    ensures
        forall|i: int, j: int|
            0 <= i < j < 5 ==> (#[trigger] kept_keys()[i]) != (#[trigger] kept_keys()[j]),
        forall|i: int| 0 <= i < 5 ==> (#[trigger] kept_keys()[i]) != "file"@,
{
    reveal_strlit("type");
    reveal_strlit("id");
    reveal_strlit("name");
    reveal_strlit("tool_use_id");
    reveal_strlit("is_error");
    reveal_strlit("file");
    assert("type"@[0] == 't' && "name"@[0] == 'n' && "file"@[0] == 'f');
    let keys = kept_keys();
    assert(keys[0] == "type"@ && keys[1] == "id"@ && keys[2] == "name"@ && keys[3]
        == "tool_use_id"@ && keys[4] == "is_error"@);
    assert forall|i: int, j: int| 0 <= i < j < 5 implies (#[trigger] keys[i]) != (#[trigger] keys[j]) by {
        assert(i == 0 || i == 1 || i == 2 || i == 3);
        assert(j == 1 || j == 2 || j == 3 || j == 4);
        assert(keys[0][0] != keys[2][0]);
        assert(keys[0].len() == 4 && keys[1].len() == 2 && keys[2].len() == 4 && keys[3].len() == 11
            && keys[4].len() == 8);
    }
}

proof fn lemma_stored_is_writable(value: JsonView, json_text: Seq<char>, id: Seq<char>, depth: nat)
    requires
        depth > 0,
        json::writable(value, depth),
    ensures
        json::writable(stored_view(value, json_text, id), depth),
{
    if byte_count(json_text) > BLOCK_SIZE_THRESHOLD {
        lemma_kept_members(value, 5, depth);
        lemma_kept_keys_differ();
        let kept = kept_members(value, 5);
        let entries = kept.push(("file"@, JsonView::Str(id)));
        assert forall|i: int| 0 <= i < entries.len() implies json::writable(
            (#[trigger] entries[i]).1,
            (depth - 1) as nat,
        ) by {
            if i < kept.len() {
                assert(entries[i] == kept[i]);
            }
        }
        assert forall|i: int, j: int| 0 <= i < j < entries.len() implies (#[trigger] entries[i]).0
            != (#[trigger] entries[j]).0 by {
            assert(entries[i] == kept[i]);
            let k = choose|k: int| 0 <= k < 5 && kept[i].0 == kept_keys()[k];
            assert(kept_keys()[k] != "file"@);
            if j < kept.len() {
                assert(entries[j] == kept[j]);
            }
        }
    }
}

proof fn lemma_reads_back(
    content: Seq<char>,
    blocks: Seq<FormView>,
    ids: Seq<Seq<char>>,
    dir: Seq<char>,
)
    requires
        storable(blocks, ids, dir),
        json::says(content, JsonView::Array(stored_values(blocks, ids))),
    ensures
        reads_back(content, block_files(blocks, ids, dir, blocks.len() as int), dir, blocks),
{
    let stored = stored_values(blocks, ids);
    let values = json::json_of_text(content)->0->Array_0;
    let files = block_files(blocks, ids, dir, blocks.len() as int);
    assert forall|i: int| 0 <= i < values.len() implies match source_of(
        #[trigger] values[i],
        dir,
    ) {
        SourceView::Row(v) => json::same_value(v, blocks[i].value),
        SourceView::File(p) => content_at(files, p) == Some(blocks[i].text),
    } by {
        assert(json::same_value(values[i], stored[i]));
        json::lemma_same_member(values[i], stored[i], "file"@);
        law_stored_blocks_are_read_back(blocks, ids, dir, i);
    }
}

/// What storing a message writes: the content of its row, and the files of its large blocks.
/// Read again, they say what the blocks say.
pub fn insert_message(msg: &NewMessage, file_ids: &Vec<String>) -> (r: (String, Vec<BlockFile>))
    requires
        file_ids@.len() >= msg.blocks@.len(),
    ensures
        r.0@ == json::text_of_json(
            JsonView::Array(stored_values(forms_view(msg.blocks@), text::views(file_ids@))),
        ),
        files_view(r.1@) == block_files(
            forms_view(msg.blocks@),
            text::views(file_ids@),
            msg.blocks_dir@,
            msg.blocks@.len() as int,
        ),
        storable(forms_view(msg.blocks@), text::views(file_ids@), msg.blocks_dir@) ==> reads_back(
            r.0@,
            files_view(r.1@),
            msg.blocks_dir@,
            forms_view(msg.blocks@),
        ),
{
    let prepared = prepare_blocks(&msg.blocks, file_ids, msg.blocks_dir.as_str());
    let ghost blocks = forms_view(msg.blocks@);
    let ghost ids = text::views(file_ids@);
    let ghost dir = msg.blocks_dir@;
    let content = content_text(prepared.stored);
    proof {
        if storable(blocks, ids, dir) {
            let stored = stored_values(blocks, ids);
            let depth = (json::MAX_DEPTH - 1) as nat;
            assert forall|i: int| 0 <= i < stored.len() implies json::writable(
                #[trigger] stored[i],
                depth,
            ) by {
                assert(json::writable(blocks[i].value, depth));
                lemma_stored_is_writable(blocks[i].value, blocks[i].text, ids[i], depth);
            }
            lemma_reads_back(content@, blocks, ids, dir);
        }
    }
    (content, prepared.files)
}

/// `s` on one line: line breaks become spaces and carriage returns go away.
pub open spec fn one_line(s: Seq<char>) -> Seq<char>
    decreases s.len(),
{
    if s.len() == 0 {
        Seq::empty()
    } else {
        let done = one_line(s.drop_last());
        if s.last() == '\n' {
            done.push(' ')
        } else if s.last() == '\r' {
            done
        } else {
            done.push(s.last())
        }
    }
}

fn on_one_line(s: &str) -> (r: String)
    ensures
        r@ == one_line(s@),
{
    let chars = text::chars_of(s);
    let mut out = String::new();
    let mut i: usize = 0;
    assert(s@.take(0) =~= Seq::empty());
    while i < chars.len()
        invariant
            chars@ == s@,
            i <= s@.len(),
            out@ == one_line(s@.take(i as int)),
        decreases s@.len() - i,
    {
        assert(s@.take(i + 1).drop_last() =~= s@.take(i as int));
        let c = chars[i];
        if c == '\n' {
            out.push(' ');
        } else if c != '\r' {
            out.push(c);
        }
        i = i + 1;
    }
    assert(s@.take(s@.len() as int) =~= s@);
    out
}

/// The text of a stored block, where it is a text block that stands in the row.
pub open spec fn block_text(v: JsonView) -> Option<Seq<char>> {
    match v.member("type"@) {
        Some(t) => if t.str_value() == Some("text"@) {
            match v.member("text"@) {
                Some(x) => match x.str_value() {
                    Some(s) => Some(one_line(s)),
                    None => None,
                },
                None => None,
            }
        } else {
            None
        },
        None => None,
    }
}

/// The texts of the stored blocks.
pub open spec fn block_texts(values: Seq<JsonView>) -> Seq<Seq<char>>
    decreases values.len(),
{
    if values.len() == 0 {
        Seq::empty()
    } else {
        let done = block_texts(values.drop_last());
        match block_text(values.last()) {
            Some(t) => done.push(t),
            None => done,
        }
    }
}

/// The texts of a stored message on one line; `parsed` is the JSON value of its content.
pub open spec fn message_text(parsed: Option<JsonView>) -> Seq<char> {
    match parsed {
        Some(JsonView::Array(values)) => text::joined(block_texts(values), " "@),
        _ => Seq::empty(),
    }
}

/// The texts of a message whose content was parsed.
pub fn text_of_parsed(parsed: &Option<Json>) -> (r: String)
    ensures
        r@ == message_text(
            match *parsed {
                Some(j) => Some(j@),
                None => None,
            },
        ),
{
    broadcast use text::lemma_views_push;
    broadcast use json::lemma_array_view;

    match parsed {
        Some(j) => match j {
            Json::Array(values) => {
                let ghost all = json::list_view(values@);
                assert(j@ == JsonView::Array(all));
                let mut out: Vec<String> = Vec::new();
                let mut i: usize = 0;
                assert(text::views(out@) =~= Seq::empty());
                assert(all.take(0) =~= Seq::empty());
                while i < values.len()
                    invariant
                        i <= values@.len(),
                        all == json::list_view(values@),
                        text::views(out@) == block_texts(all.take(i as int)),
                    decreases values@.len() - i,
                {
                    broadcast use text::lemma_views_push;

                    assert(all.take(i + 1).drop_last() =~= all.take(i as int));
                    assert(all.take(i + 1).last() == values@[i as int]@);
                    match values[i].get("type") {
                        Some(t) => {
                            let kind = t.as_str();
                            if text::same_opt(&kind, "text") {
                                match values[i].get("text") {
                                    Some(x) => match x.as_str() {
                                        Some(s) => {
                                            out.push(on_one_line(s.as_str()));
                                        },
                                        None => {},
                                    },
                                    None => {},
                                }
                            }
                        },
                        None => {},
                    }
                    i = i + 1;
                }
                assert(all.take(all.len() as int) =~= all);
                text::join(&out, " ")
            },
            _ => String::new(),
        },
        None => String::new(),
    }
}

/// The texts of a stored message, on one line. Content that is no array has none.
pub fn extract_message_text(content_json: &str) -> (r: String)
    ensures
        r@ == message_text(json::json_of_text(content_json@)),
{
    let parsed = json::parse_json(content_json);
    text_of_parsed(&parsed)
}

} // verus!
