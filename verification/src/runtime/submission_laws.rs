//! What the user sends reaches the model and the history as it is.
use crate::api::retry;
use crate::base64;
use crate::db;
use crate::paths;
use crate::runtime::submission;
use crate::runtime::submission::ImageRead;
use crate::types::display::DisplayImageAttachment;
use crate::types::message::BlockView;
use vstd::prelude::*;

verus! {

/// The model is given the text that was written and behind it each image, in the order they were
/// put in, as its file holds it.
pub proof fn law_images_follow_the_text(
    text: Seq<char>,
    images: Seq<DisplayImageAttachment>,
    read: Seq<ImageRead>,
    n: int,
)
    requires
        0 <= n <= images.len(),
        images.len() == read.len(),
        forall|i: int| 0 <= i < n ==> (#[trigger] read[i]) is Ok,
    ensures
        submission::blocks_of(text, images, read, n) matches Ok(blocks) && {
            &&& blocks.len() == n + 1
            &&& blocks[0] == BlockView::Text(text)
            &&& forall|i: int|
                0 <= i < n ==> #[trigger] blocks[i + 1] == BlockView::Image(
                    paths::image_type(images[i].source_path@),
                    base64::base64_of(read[i]->Ok_0@),
                )
        },
    decreases n,
{
    if n > 0 {
        law_images_follow_the_text(text, images, read, n - 1);
        assert(read[n - 1] is Ok);
        let before = submission::blocks_of(text, images, read, n - 1)->Ok_0;
        let blocks = submission::blocks_of(text, images, read, n)->Ok_0;
        assert forall|i: int| 0 <= i < n implies #[trigger] blocks[i + 1] == BlockView::Image(
            paths::image_type(images[i].source_path@),
            base64::base64_of(read[i]->Ok_0@),
        ) by {
            if i < n - 1 {
                assert(blocks[i + 1] == before[i + 1]);
            }
        }
    }
}

/// Where an image cannot be read nothing is sent, and the first such is named.
pub proof fn law_unread_image_is_named(
    text: Seq<char>,
    images: Seq<DisplayImageAttachment>,
    read: Seq<ImageRead>,
    at: int,
    n: int,
)
    requires
        0 <= at < n <= images.len(),
        images.len() == read.len(),
        forall|i: int| 0 <= i < at ==> (#[trigger] read[i]) is Ok,
        read[at] is Err,
    ensures
        submission::blocks_of(text, images, read, n) == Err::<Seq<BlockView>, Seq<char>>(
            images[at].source_path@ + ": "@ + read[at]->Err_0@,
        ),
    decreases n,
{
    if n == at + 1 {
        law_images_follow_the_text(text, images, read, at);
    } else {
        law_unread_image_is_named(text, images, read, at, n - 1);
    }
}

/// A text put on one line keeps each of its characters in its place, but for line breaks, which
/// become spaces, and carriage returns, which go away.
pub proof fn law_one_line_keeps_the_text(a: Seq<char>, c: char, b: Seq<char>)
    ensures
        db::one_line(a + b) == db::one_line(a) + db::one_line(b),
        c != '\n' && c != '\r' ==> db::one_line(seq![c]) == seq![c],
        db::one_line(seq!['\n']) == seq![' '],
        db::one_line(seq!['\r']) == Seq::<char>::empty(),
    decreases b.len(),
{
    reveal_with_fuel(db::one_line, 2);
    assert(seq![c].drop_last() =~= Seq::<char>::empty());
    assert(seq!['\n'].drop_last() =~= Seq::<char>::empty());
    assert(seq!['\r'].drop_last() =~= Seq::<char>::empty());
    if c != '\n' && c != '\r' {
        assert(db::one_line(seq![c]) =~= seq![c]);
    }
    assert(db::one_line(seq!['\n']) =~= seq![' ']);
    assert(db::one_line(seq!['\r']) =~= Seq::<char>::empty());
    if b.len() == 0 {
        assert(a + b =~= a);
        assert(db::one_line(a) + db::one_line(b) =~= db::one_line(a));
    } else {
        law_one_line_keeps_the_text(a, c, b.drop_last());
        assert((a + b).drop_last() =~= a + b.drop_last());
        assert((a + b).last() == b.last());
        assert(db::one_line(a + b) =~= db::one_line(a) + db::one_line(b));
    }
}

/// A request is sent again where no answer came, where there were too many requests and where the
/// server failed, and only then; each time the wait is twice as long.
pub proof fn law_when_to_send_again(code: u16, failures: int)
    ensures
        retry::can_help(None),
        retry::can_help(Some(code)) <==> code == 429 || 500 <= code <= 599,
        retry::pause_after(1) == 500,
        failures >= 1 ==> retry::pause_after(failures + 1) == 2 * retry::pause_after(failures),
{
}

} // verus!
