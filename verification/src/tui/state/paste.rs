//! Pasted texts, images and mentions in the input.
use crate::paths;
use crate::text;
use crate::tui::state::atoms;
use crate::tui::state::autocomplete;
use crate::tui::state::edit;
use crate::tui::state::mention;
use crate::tui::state::mention::InputMention;
use crate::tui::state::mention::MentionCandidate;
use crate::tui::state::InputImageAttachment;
use crate::tui::state::InputPasteMarker;
use crate::tui::state::UiState;
use crate::tui::state::PASTE_MARKER_THRESHOLD_CHARS;
use crate::tui::state::PASTE_MARKER_THRESHOLD_NEWLINES;
use crate::types::display::MentionKind;
use vstd::prelude::*;

verus! {

/// No marker is longer than this.
pub const MARKER_ROOM: usize = 64;

/// The cursor can move on by `n` characters and a marker, and one more image can be counted.
pub open spec fn room(s: UiState, n: int) -> bool {
    &&& s.cursor_char + n + MARKER_ROOM <= usize::MAX
    &&& s.input_images@.len() < usize::MAX
}

/// The number of line feeds in `s`.
pub open spec fn newlines(s: Seq<char>) -> int
    decreases s.len(),
{
    if s.len() == 0 {
        0
    } else {
        newlines(s.drop_last()) + if s.last() == '\n' {
            1int
        } else {
            0
        }
    }
}

fn count_newlines(s: &str) -> (r: usize)
    ensures
        r == newlines(s@),
{
    let chars = text::chars_of(s);
    let mut i: usize = 0;
    let mut n: usize = 0;
    assert(s@.take(0) =~= Seq::empty());
    while i < chars.len()
        invariant
            chars@ == s@,
            i <= chars@.len(),
            n <= i,
            n == newlines(s@.take(i as int)),
        decreases chars@.len() - i,
    {
        assert(s@.take(i + 1).drop_last() =~= s@.take(i as int));
        if chars[i] == '\n' {
            n = n + 1;
        }
        i = i + 1;
    }
    assert(s@.take(s@.len() as int) =~= s@);
    n
}

/// Whether a pasted text is shown as a marker.
pub open spec fn needs_marker(pasted: Seq<char>) -> bool {
    pasted.len() > PASTE_MARKER_THRESHOLD_CHARS || newlines(pasted)
        >= PASTE_MARKER_THRESHOLD_NEWLINES
}

/// The marker of a pasted text of `n` characters.
pub open spec fn paste_marker(n: int) -> Seq<char> {
    "[Pasted Content "@ + text::decimal(n) + " chars]"@
}

/// The marker of the `n`th image.
pub open spec fn image_marker(n: int) -> Seq<char> {
    "[Image#"@ + text::decimal(n) + "]"@
}

fn paste_marker_text(n: usize) -> (r: String)
    ensures
        r@ == paste_marker(n as int),
{
    let mut out = text::copy("[Pasted Content ");
    let count = text::decimal_of(n as u64);
    out.push_str(count.as_str());
    out.push_str(" chars]");
    out
}

fn image_marker_text(n: usize) -> (r: String)
    ensures
        r@ == image_marker(n as int),
{
    let mut out = text::copy("[Image#");
    let count = text::decimal_of(n as u64);
    out.push_str(count.as_str());
    out.push_str("]");
    out
}

/// The path that a pasted text may be: one line, without the quotes around it.
pub open spec fn unquoted(pasted: Seq<char>) -> Option<Seq<char>> {
    let t = text::trimmed(pasted);
    if t.len() == 0 || t.contains('\n') || t.contains('\r') {
        None
    } else if t.len() >= 2 && t[0] == '\'' && t.last() == '\'' {
        Some(t.subrange(1, t.len() - 1))
    } else if t.len() >= 2 && t[0] == '"' && t.last() == '"' {
        Some(t.subrange(1, t.len() - 1))
    } else {
        Some(t)
    }
}

pub fn unquote_single_pasted_path(pasted: &str) -> (r: Option<String>)
    ensures
        crate::json::opt_view(r) == unquoted(pasted@),
{
    let t = text::trim(pasted);
    let chars = text::chars_of(t.as_str());
    let n: usize = chars.len();
    if n == 0 || text::contains_char(t.as_str(), '\n') || text::contains_char(t.as_str(), '\r') {
        return None;
    }
    if n >= 2 && ((chars[0] == '\'' && chars[n - 1] == '\'') || (chars[0] == '"' && chars[n - 1]
        == '"')) {
        return Some(text::string_of(&chars, 1, n - 1));
    }
    Some(t)
}

/// The image that a pasted text names, seen from the directory `cwd`.
pub open spec fn pasted_image(cwd: Seq<char>, pasted: Seq<char>) -> Option<Seq<char>> {
    match unquoted(pasted) {
        Some(p) => {
            let path = paths::joined_path(cwd, p);
            if paths::image_path(path) {
                Some(path)
            } else {
                None
            }
        },
        None => None,
    }
}

/// Where the last `quote` before position `at` stands.
pub open spec fn quote_before(chars: Seq<char>, at: int, quote: char) -> Option<int>
    decreases at,
{
    if at <= 0 {
        None
    } else if chars[at - 1] == quote {
        Some(at - 1)
    } else {
        quote_before(chars, at - 1, quote)
    }
}

/// The quoted absolute path of an image that ends right before `cursor`, and where it starts.
pub open spec fn quoted_image(chars: Seq<char>, cursor: int, quote: char) -> Option<
    (int, Seq<char>),
> {
    if cursor < 2 || cursor > chars.len() || chars[cursor - 1] != quote {
        None
    } else {
        match quote_before(chars, cursor - 1, quote) {
            Some(open) => {
                let path = chars.subrange(open + 1, cursor - 1);
                if open + 1 == cursor - 1 || path.contains('\n') || path.contains('\r')
                    || !paths::absolute(path) || !paths::image_path(path) {
                    None
                } else {
                    Some((open, path))
                }
            },
            None => None,
        }
    }
}

pub proof fn lemma_quote_before(chars: Seq<char>, at: int, quote: char)
    requires
        0 <= at,
    ensures
        quote_before(chars, at, quote) matches Some(i) ==> 0 <= i < at,
    decreases at,
{
    if at > 0 && chars[at - 1] != quote {
        lemma_quote_before(chars, at - 1, quote);
    }
}

fn find_quoted_image(chars: &Vec<char>, cursor: usize, quote: char) -> (r: Option<(usize, String)>)
    ensures
        match r {
            Some((open, path)) => quoted_image(chars@, cursor as int, quote) == Some(
                (open as int, path@),
            ) && open + 2 < cursor <= chars@.len(),
            None => quoted_image(chars@, cursor as int, quote) is None,
        },
{
    if cursor < 2 || cursor > chars.len() || chars[cursor - 1] != quote {
        return None;
    }
    let closing: usize = cursor - 1;
    let mut at: usize = closing;
    while at > 0 && chars[at - 1] != quote
        invariant
            at <= closing < chars@.len(),
            quote_before(chars@, closing as int, quote) == quote_before(chars@, at as int, quote),
        decreases at,
    {
        at = at - 1;
    }
    if at == 0 {
        return None;
    }
    let open: usize = at - 1;
    if open + 1 == closing {
        return None;
    }
    let path = text::string_of(chars, open + 1, closing);
    if text::contains_char(path.as_str(), '\n') || text::contains_char(path.as_str(), '\r') {
        return None;
    }
    if !paths::is_absolute(path.as_str()) || !paths::is_supported_image_path(path.as_str()) {
        return None;
    }
    Some((open, path))
}

/// `img` is the `n`th image, from `path`, with its marker and a space at `start`.
pub open spec fn image_at_start(
    img: InputImageAttachment,
    n: int,
    start: int,
    path: Seq<char>,
) -> bool {
    &&& img.start_char == start
    &&& img.end_char == start + image_marker(n).len() + 1
    &&& img.marker@ == image_marker(n)
    &&& img.source_path@ == path
    &&& img.file_name@ == (match paths::file_name_of(path) {
        Some(name) => name,
        None => Seq::empty(),
    })
}

/// An image in place of `start..end`, and the cursor behind it; `scroll` is the first shown line.
pub open spec fn image_placed(
    pre: UiState,
    start: int,
    end: int,
    path: Seq<char>,
    scroll: int,
    post: UiState,
) -> bool {
    let n = pre.input_images@.len() + 1;
    let new = image_marker(n as int).push(' ');
    &&& edit::only_editor(pre, post)
    &&& post.input@ == edit::replaced(pre.input@, start, end, new)
    &&& post.input_mentions@ == atoms::edited_atoms(
        pre.input_mentions@,
        start,
        end - start,
        new.len() as int,
    )
    &&& post.input_paste_markers@ == atoms::edited_atoms(
        pre.input_paste_markers@,
        start,
        end - start,
        new.len() as int,
    )
    &&& exists|img: InputImageAttachment|
        {
            &&& #[trigger] image_at_start(img, n as int, start, path)
            &&& post.input_images@ == atoms::by_start(
                atoms::edited_atoms(pre.input_images@, start, end - start, new.len() as int).push(
                    img,
                ),
            )
        }
    &&& post.cursor_char == start + new.len()
    &&& post.input_scroll_line == scroll
}

/// What typing `c` does; a quote that completes the path of an existing image turns the quoted
/// path into an attachment.
pub open spec fn char_typed(pre: UiState, c: char, is_file: bool, post: UiState) -> bool {
    let typed = edit::replaced(
        pre.input@,
        pre.cursor_char as int,
        pre.cursor_char as int,
        seq![c],
    );
    match quoted_image(typed, pre.cursor_char + 1, c) {
        Some((open, path)) if (c == '\'' || c == '"') && is_file => exists|mid: UiState|
            {
                &&& #[trigger] edit::text_inserted(pre, seq![c], mid)
                &&& image_placed(
                    mid,
                    open,
                    pre.cursor_char + 1,
                    path,
                    mid.input_scroll_line as int,
                    post,
                )
            },
        _ => edit::text_inserted(pre, seq![c], post),
    }
}

/// `m` stands for the pasted text at `start`.
pub open spec fn marks_paste(m: InputPasteMarker, start: int, pasted: Seq<char>) -> bool {
    &&& m.start_char == start
    &&& m.end_char == start + paste_marker(pasted.len() as int).len()
    &&& m.marker@ == paste_marker(pasted.len() as int)
    &&& m.full_text@ == pasted
    &&& m.full_char_count == pasted.len()
}

/// What pasting does: an existing image becomes an attachment, a long text a marker, and any
/// other text is typed.
pub open spec fn text_pasted(pre: UiState, pasted: Seq<char>, is_file: bool, post: UiState) -> bool {
    match pasted_image(pre.status_bar.cwd@, pasted) {
        Some(path) if is_file => image_placed(
            pre,
            pre.cursor_char as int,
            pre.cursor_char as int,
            path,
            edit::settled(
                post.input@,
                pre.capacity(),
                post.cursor_char as int,
                pre.input_scroll_line as int,
            ),
            post,
        ),
        _ => if needs_marker(pasted) {
            exists|mid: UiState, m: InputPasteMarker|
                {
                    &&& #[trigger] edit::text_inserted(
                        pre,
                        paste_marker(pasted.len() as int),
                        mid,
                    )
                    &&& #[trigger] marks_paste(m, pre.cursor_char as int, pasted)
                    &&& post == (UiState { input_paste_markers: post.input_paste_markers, ..mid })
                    &&& post.input_paste_markers@ == atoms::by_start(
                        mid.input_paste_markers@.push(m),
                    )
                }
        } else {
            exists|mid: UiState|
                {
                    &&& #[trigger] edit::text_inserted(pre, pasted, mid)
                    &&& edit::just_moved(mid, mid.cursor_char as int, post)
                }
        },
    }
}

/// Nothing but the offers next to the input changes.
pub open spec fn only_offers(pre: UiState, post: UiState) -> bool {
    post == (UiState {
        autocomplete: post.autocomplete,
        mention_autocomplete: post.mention_autocomplete,
        ..pre
    })
}

/// What is offered after the input has changed: commands where the input may become one, else
/// candidates for the mention that the cursor is in.
pub open spec fn offers_updated(pre: UiState, post: UiState) -> bool {
    &&& only_offers(pre, post)
    &&& autocomplete::commands_for(pre.autocomplete, pre.input@, post.autocomplete)
    &&& if post.autocomplete.visible {
        if pre.mention_autocomplete.visible {
            mention::mentions_closed(pre.mention_autocomplete, post.mention_autocomplete)
        } else {
            post.mention_autocomplete == pre.mention_autocomplete
        }
    } else {
        mention::mentions_for(
            pre.mention_autocomplete,
            pre.input@,
            pre.cursor_char as int,
            post.mention_autocomplete,
        )
    }
}

/// Both lists of offers are put away.
pub open spec fn offers_closed(pre: UiState, post: UiState) -> bool {
    &&& only_offers(pre, post)
    &&& post.autocomplete == (autocomplete::CommandAutocomplete {
        visible: false,
        ..pre.autocomplete
    })
    &&& mention::mentions_closed(pre.mention_autocomplete, post.mention_autocomplete)
}

/// The selected candidate of the mention list.
pub open spec fn chosen(s: UiState) -> Option<MentionCandidate> {
    if s.mention_autocomplete.selected < s.mention_autocomplete.filtered@.len() {
        Some(s.mention_autocomplete.filtered@[s.mention_autocomplete.selected as int])
    } else {
        None
    }
}

/// The path of a candidate that is an image file.
pub open spec fn candidate_image(s: UiState, c: MentionCandidate) -> Option<Seq<char>> {
    let path = paths::joined_path(s.status_bar.cwd@, c.target@);
    if c.kind == MentionKind::File && paths::image_path(path) {
        Some(path)
    } else {
        None
    }
}

/// `m` is the mention of `c` at `start`, with the space behind it.
pub open spec fn mentions_candidate(m: InputMention, c: MentionCandidate, start: int) -> bool {
    &&& m.start_char == start
    &&& m.end_char == start + c.label@.len() + 2
    &&& m.kind == c.kind
    &&& m.label == c.label
    &&& m.target == c.target
    &&& m.description == c.description
}

/// The mention of `c` in place of what has been typed of it.
pub open spec fn mention_placed(pre: UiState, c: MentionCandidate, post: UiState) -> bool {
    let start = pre.mention_autocomplete.active_start as int;
    let end = pre.mention_autocomplete.active_end as int;
    let new = (seq!['@'] + c.label@).push(' ');
    &&& edit::only_editor(pre, post)
    &&& post.input@ == edit::replaced(pre.input@, start, end, new)
    &&& post.input_images@ == atoms::edited_atoms(
        pre.input_images@,
        start,
        end - start,
        new.len() as int,
    )
    &&& post.input_paste_markers@ == atoms::edited_atoms(
        pre.input_paste_markers@,
        start,
        end - start,
        new.len() as int,
    )
    &&& exists|m: InputMention|
        {
            &&& #[trigger] mentions_candidate(m, c, start)
            &&& post.input_mentions@ == atoms::by_start(
                atoms::edited_atoms(
                    pre.input_mentions@,
                    start,
                    end - start,
                    new.len() as int,
                ).push(m),
            )
        }
    &&& edit::cursor_moved(pre, start + new.len(), post)
}

/// What taking the selected candidate does.
pub open spec fn mention_inserted(pre: UiState, is_file: bool, r: bool, post: UiState) -> bool {
    match chosen(pre) {
        None => !r && post == pre,
        Some(c) => r && exists|mid: UiState|
            {
                &&& match candidate_image(pre, c) {
                    Some(path) if is_file => image_placed(
                        pre,
                        pre.mention_autocomplete.active_start as int,
                        pre.mention_autocomplete.active_end as int,
                        path,
                        edit::settled(
                            mid.input@,
                            pre.capacity(),
                            mid.cursor_char as int,
                            pre.input_scroll_line as int,
                        ),
                        mid,
                    ),
                    _ => mention_placed(pre, c, mid),
                }
                &&& #[trigger] offers_closed(mid, post)
            },
    }
}

/// `s` without slashes at its end.
pub open spec fn without_slashes(s: Seq<char>) -> Seq<char>
    decreases s.len(),
{
    if s.len() > 0 && s.last() == '/' {
        without_slashes(s.drop_last())
    } else {
        s
    }
}

fn trim_slashes(s: &str) -> (r: String)
    ensures
        r@ == without_slashes(s@),
{
    let chars = text::chars_of(s);
    let mut n: usize = chars.len();
    assert(s@.take(n as int) =~= s@);
    while n > 0 && chars[n - 1] == '/'
        invariant
            chars@ == s@,
            n <= chars@.len(),
            without_slashes(s@) == without_slashes(s@.take(n as int)),
        decreases n,
    {
        assert(s@.take(n as int).drop_last() =~= s@.take(n - 1));
        n = n - 1;
    }
    let out = text::string_of(&chars, 0, n);
    assert(out@ =~= s@.take(n as int));
    out
}

/// What stepping into the selected directory does: its path is typed, with a slash, and its
/// contents are offered next.
pub open spec fn directory_expanded(pre: UiState, is_file: bool, r: bool, post: UiState) -> bool {
    match chosen(pre) {
        Some(c) if c.kind == MentionKind::Directory => {
            let start = pre.mention_autocomplete.active_start as int;
            let end = pre.mention_autocomplete.active_end as int;
            let new = (seq!['@'] + without_slashes(c.target@)).push('/');
            r && exists|mid: UiState|
                {
                    &&& #[trigger] edit::only_editor(pre, mid)
                    &&& edit::text_edited(pre, start, end, new, mid)
                    &&& edit::cursor_moved(pre, start + new.len(), mid)
                    &&& only_offers(mid, post)
                    &&& post.autocomplete == (autocomplete::CommandAutocomplete {
                        visible: false,
                        ..mid.autocomplete
                    })
                    &&& mention::mentions_for(
                        mid.mention_autocomplete,
                        mid.input@,
                        mid.cursor_char as int,
                        post.mention_autocomplete,
                    )
                }
        },
        _ => mention_inserted(pre, is_file, r, post),
    }
}

impl UiState {
    /// The image path that typing `c` would complete.
    pub fn typed_image_path(&self, c: char) -> (r: Option<String>)
        requires
            self.cursor_char < usize::MAX,
        ensures
            crate::json::opt_view(r) == (match quoted_image(
                edit::replaced(
                    self.input@,
                    self.cursor_char as int,
                    self.cursor_char as int,
                    seq![c],
                ),
                self.cursor_char + 1,
                c,
            ) {
                Some((_, path)) if c == '\'' || c == '"' => Some(path),
                _ => None,
            }),
    {
        if c != '\'' && c != '"' {
            return None;
        }
        let mut chars = text::chars_of(self.input.as_str());
        let at = text::min_usize(self.cursor_char, chars.len());
        chars.insert(at, c);
        assert(chars@ =~= edit::replaced(
            self.input@,
            self.cursor_char as int,
            self.cursor_char as int,
            seq![c],
        ));
        match find_quoted_image(&chars, self.cursor_char + 1, c) {
            Some((_, path)) => Some(path),
            None => None,
        }
    }

    /// The image path that a pasted text names.
    pub fn pasted_image_path(&self, pasted: &str) -> (r: Option<String>)
        ensures
            crate::json::opt_view(r) == pasted_image(self.status_bar.cwd@, pasted@),
    {
        match unquote_single_pasted_path(pasted) {
            Some(p) => {
                let path = paths::join(self.status_bar.cwd.as_str(), p.as_str());
                if paths::is_supported_image_path(path.as_str()) {
                    Some(path)
                } else {
                    None
                }
            },
            None => None,
        }
    }

    /// The path of the selected candidate, where it is an image file.
    pub fn selected_image_path(&self) -> (r: Option<String>)
        ensures
            crate::json::opt_view(r) == (match chosen(*self) {
                Some(c) => candidate_image(*self, c),
                None => None,
            }),
    {
        match self.mention_autocomplete.selected_candidate() {
            Some(c) => {
                if c.kind != MentionKind::File {
                    return None;
                }
                let path = paths::join(self.status_bar.cwd.as_str(), c.target.as_str());
                if paths::is_supported_image_path(path.as_str()) {
                    Some(path)
                } else {
                    None
                }
            },
            None => None,
        }
    }

    /// Puts an image in place of `start..end`.
    fn replace_range_with_image_attachment(&mut self, start: usize, end: usize, path: String)
        requires
            start <= end,
            start + MARKER_ROOM <= usize::MAX,
            old(self).input_images@.len() < usize::MAX,
        ensures
            image_placed(
                *old(self),
                start as int,
                end as int,
                path@,
                old(self).input_scroll_line as int,
                *final(self),
            ),
    {
        let marker = image_marker_text(self.input_images.len() + 1);
        proof {
            lemma_marker_len((self.input_images@.len() + 1) as int);
        }
        let mut replacement = marker.clone();
        replacement.push(' ');
        let new_len: usize = text::char_count(replacement.as_str());
        let file_name = match paths::file_name(path.as_str()) {
            Some(name) => name,
            None => String::new(),
        };
        self.replace_input(start, end, replacement.as_str());
        let img = InputImageAttachment {
            start_char: start,
            end_char: start + new_len,
            marker,
            source_path: path,
            file_name,
        };
        assert(image_at_start(
            img,
            (old(self).input_images@.len() + 1) as int,
            start as int,
            path@,
        ));
        self.input_images.push(img);
        atoms::sort_by_start(&mut self.input_images);
        self.cursor_char = start + new_len;
    }

    /// Attaches the image at `path` at the cursor.
    pub fn insert_image_attachment(&mut self, path: String)
        requires
            room(*old(self), 0),
        ensures
            image_placed(
                *old(self),
                old(self).cursor_char as int,
                old(self).cursor_char as int,
                path@,
                edit::settled(
                    final(self).input@,
                    old(self).capacity(),
                    final(self).cursor_char as int,
                    old(self).input_scroll_line as int,
                ),
                *final(self),
            ),
    {
        let at = self.cursor_char;
        self.replace_range_with_image_attachment(at, at, path);
        self.ensure_input_cursor_visible();
    }

    /// Types `c`. Where `typed_image_path` names a path, `is_file` says whether a file is there.
    pub fn insert_char(&mut self, c: char, is_file: bool)
        requires
            room(*old(self), 1),
        ensures
            char_typed(*old(self), c, is_file, *final(self)),
    {
        let mut s = String::new();
        s.push(c);
        assert(s@ =~= seq![c]);
        proof {
            lemma_edited_len(self.input_images@, self.cursor_char as int, 0, 1);
        }
        self.insert_text(s.as_str());
        if c == '\'' || c == '"' {
            let chars = text::chars_of(self.input.as_str());
            let ghost mid = *self;
            match find_quoted_image(&chars, self.cursor_char, c) {
                Some((open, path)) => {
                    if is_file {
                        let end = self.cursor_char;
                        self.replace_range_with_image_attachment(open, end, path);
                        assert(edit::text_inserted(*old(self), seq![c], mid));
                    }
                },
                None => {},
            }
        }
    }

    /// Pastes `pasted`. Where `pasted_image_path` names a path, `is_file` says whether a file is
    /// there.
    pub fn insert_paste(&mut self, pasted: String, is_file: bool)
        requires
            room(*old(self), pasted@.len() as int),
        ensures
            text_pasted(*old(self), pasted@, is_file, *final(self)),
    {
        if is_file {
            match self.pasted_image_path(pasted.as_str()) {
                Some(path) => {
                    self.insert_image_attachment(path);
                    return;
                },
                None => {},
            }
        }
        let count: usize = text::char_count(pasted.as_str());
        let newline_count: usize = count_newlines(pasted.as_str());
        if count > PASTE_MARKER_THRESHOLD_CHARS || newline_count
            >= PASTE_MARKER_THRESHOLD_NEWLINES {
            let marker = paste_marker_text(count);
            proof {
                lemma_marker_len(count as int);
            }
            let start = self.cursor_char;
            self.insert_text(marker.as_str());
            let ghost mid = *self;
            let marker_len: usize = text::char_count(marker.as_str());
            let m = InputPasteMarker {
                start_char: start,
                end_char: start + marker_len,
                marker,
                full_text: pasted,
                full_char_count: count,
            };
            let ghost gm = m;
            self.input_paste_markers.push(m);
            atoms::sort_by_start(&mut self.input_paste_markers);
            proof {
                edit::lemma_settled_twice(
                    mid.input@,
                    mid.capacity(),
                    mid.cursor_char as int,
                    old(self).input_scroll_line as int,
                );
                assert(edit::text_inserted(*old(self), paste_marker(pasted@.len() as int), mid));
                assert(marks_paste(gm, start as int, pasted@));
            }
            self.ensure_input_cursor_visible();
        } else {
            self.insert_text(pasted.as_str());
            let ghost mid = *self;
            assert(edit::text_inserted(*old(self), pasted@, mid));
            self.ensure_input_cursor_visible();
        }
    }

    /// Brings what is offered up to date with the input.
    pub fn update_input_autocomplete(&mut self)
        ensures
            offers_updated(*old(self), *final(self)),
    {
        self.autocomplete.update(self.input.as_str());
        if self.autocomplete.visible {
            if self.mention_autocomplete.visible {
                self.mention_autocomplete.close();
            }
        } else {
            self.mention_autocomplete.update(self.input.as_str(), self.cursor_char);
        }
    }

    /// Sets what can be mentioned, seen from the directory `cwd`.
    pub fn set_mention_context(&mut self, cwd: String, candidates: Vec<MentionCandidate>)
        ensures
            exists|mid: UiState|
                {
                    &&& mid == (UiState {
                        mention_autocomplete: mention::MentionAutocomplete {
                            cwd,
                            candidates,
                            ..old(self).mention_autocomplete
                        },
                        ..*old(self)
                    })
                    &&& #[trigger] offers_updated(mid, *final(self))
                },
    {
        self.mention_autocomplete.set_cwd(cwd);
        self.mention_autocomplete.set_candidates(candidates);
        let ghost mid = *self;
        self.update_input_autocomplete();
        assert(offers_updated(mid, *self));
    }

    /// Puts the offers for mentions away.
    pub fn cancel_mention_autocomplete(&mut self)
        ensures
            *final(self) == (UiState {
                mention_autocomplete: final(self).mention_autocomplete,
                ..*old(self)
            }),
            mention::mentions_closed(
                old(self).mention_autocomplete,
                final(self).mention_autocomplete,
            ),
    {
        self.mention_autocomplete.close();
    }

    /// Puts the selected candidate in place of what has been typed of it. Where
    /// `selected_image_path` names a path, `is_file` says whether a file is there.
    pub fn insert_selected_mention(&mut self, is_file: bool) -> (r: bool)
        requires
            mention_room(*old(self)),
        ensures
            mention_inserted(*old(self), is_file, r, *final(self)),
    {
        let image = if is_file {
            self.selected_image_path()
        } else {
            None
        };
        let candidate = match self.mention_autocomplete.selected_candidate() {
            Some(c) => c.clone(),
            None => {
                return false;
            },
        };
        let start = self.mention_autocomplete.active_start;
        let end = self.mention_autocomplete.active_end;
        match image {
            Some(path) => {
                self.replace_range_with_image_attachment(start, end, path);
                self.ensure_input_cursor_visible();
                let ghost mid = *self;
                self.mention_autocomplete.close();
                self.autocomplete.visible = false;
                assert(offers_closed(mid, *self));
                return true;
            },
            None => {},
        }
        let mut replacement = candidate.insert_display();
        replacement.push(' ');
        let new_len: usize = text::char_count(replacement.as_str());
        self.replace_input(start, end, replacement.as_str());
        let m = InputMention {
            start_char: start,
            end_char: start + new_len,
            kind: candidate.kind,
            label: candidate.label,
            target: candidate.target,
            description: candidate.description,
        };
        assert(mentions_candidate(m, candidate, start as int));
        self.input_mentions.push(m);
        atoms::sort_by_start(&mut self.input_mentions);
        self.cursor_char = start + new_len;
        self.ensure_input_cursor_visible();
        let ghost mid = *self;
        self.mention_autocomplete.close();
        self.autocomplete.visible = false;
        assert(mention_placed(*old(self), candidate, mid));
        assert(offers_closed(mid, *self));
        true
    }

    /// Steps into the selected directory; any other candidate is taken as it is.
    pub fn expand_selected_mention_directory(&mut self, is_file: bool) -> (r: bool)
        requires
            mention_room(*old(self)),
        ensures
            directory_expanded(*old(self), is_file, r, *final(self)),
    {
        let candidate = match self.mention_autocomplete.selected_candidate() {
            Some(c) => c.clone(),
            None => {
                return false;
            },
        };
        if !candidate.is_directory() {
            return self.insert_selected_mention(is_file);
        }
        let start = self.mention_autocomplete.active_start;
        let end = self.mention_autocomplete.active_end;
        let mut replacement = String::new();
        replacement.push('@');
        let target = trim_slashes(candidate.target.as_str());
        proof {
            lemma_without_slashes(candidate.target@);
        }
        replacement.push_str(target.as_str());
        replacement.push('/');
        assert(replacement@ =~= (seq!['@'] + without_slashes(candidate.target@)).push('/'));
        let new_len: usize = text::char_count(replacement.as_str());
        self.replace_input(start, end, replacement.as_str());
        self.cursor_char = start + new_len;
        self.ensure_input_cursor_visible();
        let ghost mid = *self;
        self.autocomplete.visible = false;
        self.mention_autocomplete.update(self.input.as_str(), self.cursor_char);
        assert(edit::only_editor(*old(self), mid));
        true
    }

    /// The pasted text whose marker starts at `start_char`.
    pub fn paste_marker_at(&self, start_char: usize) -> (r: Option<&InputPasteMarker>)
        ensures
            match r {
                Some(m) => first_at(self.input_paste_markers@, start_char) == Some(*m),
                None => first_at(self.input_paste_markers@, start_char) is None,
            },
    {
        find_at(&self.input_paste_markers, start_char)
    }

    /// The image whose marker starts at `start_char`.
    pub fn image_at(&self, start_char: usize) -> (r: Option<&InputImageAttachment>)
        ensures
            match r {
                Some(m) => first_at(self.input_images@, start_char) == Some(*m),
                None => first_at(self.input_images@, start_char) is None,
            },
    {
        find_at(&self.input_images, start_char)
    }

    /// The mention that starts at `start_char`.
    pub fn mention_at(&self, start_char: usize) -> (r: Option<&InputMention>)
        ensures
            match r {
                Some(m) => first_at(self.input_mentions@, start_char) == Some(*m),
                None => first_at(self.input_mentions@, start_char) is None,
            },
    {
        find_at(&self.input_mentions, start_char)
    }
}

/// The first atom that starts at `at`.
pub open spec fn first_at<T: atoms::Atom>(all: Seq<T>, at: usize) -> Option<T>
    decreases all.len(),
{
    if all.len() == 0 {
        None
    } else if all[0].lo() == at {
        Some(all[0])
    } else {
        first_at(all.skip(1), at)
    }
}

fn find_at<'a, T: atoms::Atom>(all: &'a Vec<T>, at: usize) -> (r: Option<&'a T>)
    ensures
        match r {
            Some(m) => first_at(all@, at) == Some(*m),
            None => first_at(all@, at) is None,
        },
{
    let mut i: usize = 0;
    assert(all@.skip(0) =~= all@);
    while i < all.len()
        invariant
            i <= all@.len(),
            first_at(all@, at) == first_at(all@.skip(i as int), at),
        decreases all@.len() - i,
    {
        let (lo, _) = all[i].range();
        assert(all@.skip(i as int)[0] == all@[i as int]);
        assert(all@.skip(i as int).skip(1) =~= all@.skip(i + 1));
        if lo == at {
            return Some(&all[i]);
        }
        i = i + 1;
    }
    None
}

proof fn lemma_without_slashes(s: Seq<char>)
    ensures
        without_slashes(s).len() <= s.len(),
    decreases s.len(),
{
    if s.len() > 0 && s.last() == '/' {
        lemma_without_slashes(s.drop_last());
    }
}

proof fn lemma_edited_len<T: atoms::Atom>(all: Seq<T>, start: int, old_len: int, new_len: int)
    ensures
        atoms::edited_atoms(all, start, old_len, new_len).len() <= all.len(),
    decreases all.len(),
{
    if all.len() > 0 {
        lemma_edited_len(all.drop_last(), start, old_len, new_len);
    }
}

/// What has been typed of a mention is a range, and there is room for the candidate.
pub open spec fn mention_room(s: UiState) -> bool {
    &&& s.mention_autocomplete.active_start <= s.mention_autocomplete.active_end
    &&& s.mention_autocomplete.active_start + MARKER_ROOM <= usize::MAX
    &&& s.input_images@.len() < usize::MAX
    &&& chosen(s) matches Some(c) ==> s.mention_autocomplete.active_start + c.label@.len()
        + MARKER_ROOM <= usize::MAX && s.mention_autocomplete.active_start + c.target@.len()
        + MARKER_ROOM <= usize::MAX
}

/// A marker has at most 64 characters.
pub proof fn lemma_marker_len(n: int)
    requires
        0 <= n <= u64::MAX,
    ensures
        1 <= image_marker(n).len() <= 60,
        1 <= paste_marker(n).len() <= 60,
{
    reveal_strlit("[Image#");
    reveal_strlit("]");
    reveal_strlit("[Pasted Content ");
    reveal_strlit(" chars]");
    text::lemma_decimal_of_u64(n);
}

} // verus!
