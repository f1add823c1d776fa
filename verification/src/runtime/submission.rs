//! What becomes of a draft that the user sends.
use crate::base64;
use crate::paths;
use crate::runtime::service::Submission;
use crate::text;
use crate::types::display::DisplayImageAttachment;
use crate::types::display::DisplayMessage;
use crate::types::display::UserDraft;
use crate::types::message;
use crate::types::message::BlockView;
use crate::types::message::ContentBlock;
use crate::types::message::ImageBlock;
use crate::types::message::Message;
use crate::types::message::MessageView;
use crate::types::message::Role;
use vstd::prelude::*;

verus! {

/// What reading the file of an image came to.
pub type ImageRead = Result<Vec<u8>, String>;

/// The image as the model is given it.
pub open spec fn image_block(image: DisplayImageAttachment, bytes: Seq<u8>) -> BlockView {
    BlockView::Image(paths::image_type(image.source_path@), base64::base64_of(bytes))
}

/// The text and behind it the first `n` images, or why one of them could not be read: the first
/// such counts.
pub open spec fn blocks_of(
    text: Seq<char>,
    images: Seq<DisplayImageAttachment>,
    read: Seq<ImageRead>,
    n: int,
) -> Result<Seq<BlockView>, Seq<char>>
    decreases n,
{
    if n <= 0 {
        Ok(seq![BlockView::Text(text)])
    } else {
        match (blocks_of(text, images, read, n - 1), read[n - 1]) {
            (Ok(blocks), Ok(bytes)) => Ok(blocks.push(image_block(images[n - 1], bytes@))),
            (Ok(_), Err(e)) => Err(images[n - 1].source_path@ + ": "@ + e@),
            (Err(e), _) => Err(e),
        }
    }
}

/// What is shown of a draft apart from the message itself: its marks, where it has any.
pub open spec fn shown_of(draft: UserDraft) -> Option<DisplayMessage> {
    if draft.mentions@.len() == 0 && draft.images@.len() == 0 {
        None
    } else {
        Some(
            DisplayMessage {
                role: Role::User,
                text: draft.text,
                mentions: draft.mentions,
                images: draft.images,
            },
        )
    }
}

/// Makes what is sent of a draft: the model is given its text and its images, `read` from their
/// files in their order.
pub fn submission_of(draft: UserDraft, read: &Vec<ImageRead>) -> (r: Result<Submission, String>)
    requires
        read@.len() == draft.images@.len(),
        forall|i: int|
            0 <= i < read@.len() ==> (#[trigger] read@[i] matches Ok(bytes) ==> bytes@.len()
                <= usize::MAX - 3),
    ensures
        match blocks_of(draft.text@, draft.images@, read@, read@.len() as int) {
            Ok(blocks) => r matches Ok(s) && s.llm_message@ == (MessageView {
                role: Role::User,
                content: blocks,
            }) && s.display_message == shown_of(draft),
            Err(e) => r matches Err(m) && m@ == e,
        },
{
    let mut content: Vec<ContentBlock> = Vec::new();
    content.push(ContentBlock::from_text(draft.text.clone()));
    assert(message::blocks_view(content@) =~= seq![BlockView::Text(draft.text@)]);
    let mut i: usize = 0;
    while i < read.len()
        invariant
            i <= read@.len(),
            read@.len() == draft.images@.len(),
            forall|i: int|
                0 <= i < read@.len() ==> (#[trigger] read@[i] matches Ok(bytes) ==> bytes@.len()
                    <= usize::MAX - 3),
            blocks_of(draft.text@, draft.images@, read@, i as int) == Ok::<
                Seq<BlockView>,
                Seq<char>,
            >(message::blocks_view(content@)),
        decreases read@.len() - i,
    {
        let ghost before = message::blocks_view(content@);
        match &read[i] {
            Ok(bytes) => {
                let path = draft.images[i].source_path.as_str();
                let block = ImageBlock {
                    media_type: text::copy(paths::media_type(path)),
                    data: base64::encode(bytes),
                };
                content.push(ContentBlock::Image(block));
                assert(message::blocks_view(content@) =~= before.push(
                    image_block(draft.images@[i as int], bytes@),
                ));
            },
            Err(e) => {
                let mut m = text::concat(draft.images[i].source_path.as_str(), ": ");
                m.push_str(e.as_str());
                proof {
                    lemma_error_stays(
                        draft.text@,
                        draft.images@,
                        read@,
                        i + 1,
                        read@.len() as int,
                    );
                }
                return Err(m);
            },
        }
        i = i + 1;
    }
    let display_message = if draft.mentions.len() == 0 && draft.images.len() == 0 {
        None
    } else {
        Some(
            DisplayMessage {
                role: Role::User,
                text: draft.text,
                mentions: draft.mentions,
                images: draft.images,
            },
        )
    };
    Ok(Submission { llm_message: Message::new(Role::User, content), display_message })
}

proof fn lemma_error_stays(
    text: Seq<char>,
    images: Seq<DisplayImageAttachment>,
    read: Seq<ImageRead>,
    n: int,
    m: int,
)
    requires
        0 <= n <= m,
        blocks_of(text, images, read, n) is Err,
    ensures
        blocks_of(text, images, read, m) == blocks_of(text, images, read, n),
    decreases m,
{
    if n < m {
        lemma_error_stays(text, images, read, n, m - 1);
    }
}

} // verus!
