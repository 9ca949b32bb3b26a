//! What the sending side does about each event.

use vstd::prelude::*;

use crate::digest::sha256_of;
use crate::file_sender::{FileSender, SenderActionView, SenderEvent, SenderPhase, SenderView};
use crate::protocol::MessageView;

verus! {

/// Whether `after` is at the file behind the current one of `before`, which is
/// to be opened, or at the end if there is none.
pub open spec fn is_at_next_file(before: SenderView, after: SenderView) -> bool {
    &&& after.id == before.id
    &&& after.files == before.files
    &&& after.position == before.position + 1
    &&& if before.position + 1 < before.files.len() {
        after.phase is Opening
    } else {
        after.phase is Finished
    }
}

/// Whether `after` is still at the current file of `before`.
pub open spec fn is_at_same_file(before: SenderView, after: SenderView) -> bool {
    &&& after.id == before.id
    &&& after.files == before.files
    &&& after.position == before.position
}

/// What is read is sent as it is, behind all that was sent before, and then an
/// acknowledgement is awaited. The end of a file is announced with how much was
/// sent and the digest of it, and the next file follows.
pub proof fn law_what_is_read_is_sent(sender: SenderView, sent: Seq<u8>, data: Vec<u8>)
    requires
        sender.is_valid(),
        sender.phase == (SenderPhase::Reading { sent }),
    ensures
        ({
            let (after, msg) = sender.after(SenderEvent::Read(data));
            let current = sender.files[sender.position as int].0;
            &&& data@.len() > 0 ==> {
                &&& is_at_same_file(sender, after)
                &&& after.phase matches SenderPhase::Waiting { offset, sent: now }
                &&& offset == sent.len()
                &&& now == sent + data@
                &&& msg matches Some(
                    MessageView::FileChunk { id, file_index, offset: at, data: bytes },
                )
                &&& id == sender.id
                &&& file_index == current
                &&& at == sent.len()
                &&& bytes == data@
            }
            &&& data@.len() == 0 ==> {
                &&& is_at_next_file(sender, after)
                &&& msg matches Some(MessageView::FileComplete { id, file_index, size, sha256 })
                &&& id == sender.id
                &&& file_index == current
                &&& size == sent.len()
                &&& sha256 == sha256_of(sent)
            }
        }),
{
}

/// An acknowledgement lets the sender go on where it was; nothing is sent for
/// it.
pub proof fn law_acknowledgement_goes_on(sender: SenderView, offset: u64, sent: Seq<u8>)
    requires
        sender.phase == (SenderPhase::Waiting { offset, sent }),
    ensures
        ({
            let (after, msg) = sender.after(SenderEvent::Acknowledged);
            &&& msg is None
            &&& is_at_same_file(sender, after)
            &&& after.phase == (SenderPhase::Reading { sent })
        }),
{
}

/// A file that was opened is read from its start. One that could not be opened
/// is reported and passed over.
pub proof fn law_opening_of_a_file(sender: SenderView)
    requires
        sender.phase is Opening,
    ensures
        ({
            let (after, msg) = sender.after(SenderEvent::Opened);
            &&& msg is None
            &&& is_at_same_file(sender, after)
            &&& after.phase matches SenderPhase::Reading { sent }
            &&& sent.len() == 0
        }),
        ({
            let (after, msg) = sender.after(SenderEvent::OpenFailed);
            &&& msg matches Some(MessageView::Error { id, code })
            &&& id == sender.id
            &&& code == 500
            &&& is_at_next_file(sender, after)
        }),
{
}

/// A failed read and a missing acknowledgement end the transfer and are
/// reported, each with its own code; a cancellation ends it in silence.
pub proof fn law_failures_end_the_sending(sender: SenderView)
    ensures
        ({
            let (after, msg) = sender.after(SenderEvent::ReadFailed);
            &&& after.phase is Finished
            &&& msg matches Some(MessageView::Error { id, code })
            &&& id == sender.id
            &&& code == 500
        }),
        ({
            let (after, msg) = sender.after(SenderEvent::AckTimedOut);
            &&& after.phase is Finished
            &&& msg matches Some(MessageView::Error { id, code })
            &&& id == sender.id
            &&& code == 504
        }),
        ({
            let (after, msg) = sender.after(SenderEvent::Cancelled);
            &&& after.phase is Finished
            &&& msg is None
        }),
{
}

/// What is asked for: the current file is opened by its own path, then read,
/// and each chunk is waited for.
pub proof fn law_what_the_sender_asks_for(sender: SenderView)
    ensures
        match sender.phase {
            SenderPhase::Opening => sender.action() matches SenderActionView::Open(path) && path
                == sender.files[sender.position as int].1,
            SenderPhase::Reading { .. } => sender.action() is Read,
            SenderPhase::Waiting { .. } => sender.action() is AwaitAck,
            SenderPhase::Finished => sender.action() is Finish,
        },
{
}

/// The sender is told only what it has asked for: a file that was to be opened
/// was opened or not, a chunk of at most 256 KiB was read or not, and an
/// acknowledgement came, did not come or was given up.
pub proof fn law_what_the_sender_is_told(sender: SenderView, event: SenderEvent)
    ensures
        sender.phase is Opening ==> (sender.expects(event) <==> event is Opened
            || event is OpenFailed),
        sender.phase is Waiting ==> (sender.expects(event) <==> event is Acknowledged
            || event is Cancelled || event is AckTimedOut),
        sender.phase is Finished ==> !sender.expects(event),
        sender.phase is Reading ==> (event matches SenderEvent::Read(data) ==> (
        sender.expects(event) <==> data@.len() <= 262_144 && sender.phase->Reading_sent.len()
            + data@.len() <= 0x1FFF_FFFF_FFFF_FFFF)),
        sender.phase is Reading && !(event is Read) ==> (sender.expects(event)
            <==> event is ReadFailed),
{
}

/// The sender begins with the first file of its queue, if there is one.
pub proof fn law_sending_begins(id: u64, files: Vec<(u32, String)>, sender: FileSender)
    requires
        call_ensures(FileSender::new, (id, files), sender),
    ensures
        sender@.id == id,
        sender@.position == 0,
        sender@.files.len() == files@.len(),
        forall|i: int|
            0 <= i < files@.len() ==> (#[trigger] sender@.files[i]).0 == files@[i].0
                && sender@.files[i].1 == files@[i].1@,
        files@.len() > 0 ==> sender@.phase is Opening,
        files@.len() == 0 ==> sender@.phase is Finished,
{
}

/// What has been read of the current file is what was sent of it.
pub proof fn law_read_bytes_are_counted(sender: FileSender, n: u64)
    requires
        call_ensures(FileSender::bytes_read, (&sender,), n),
    ensures
        sender@.phase matches SenderPhase::Reading { sent } ==> n == sent.len(),
        sender@.phase matches SenderPhase::Waiting { offset, sent } ==> n == sent.len(),
        sender@.phase is Opening || sender@.phase is Finished ==> n == 0,
{
}

/// The end of a file is announced after all of it was sent, in chunks that
/// follow each other: each chunk begins where the one before it ended.
pub proof fn law_chunks_follow_each_other(sender: SenderView, first: Vec<u8>, second: Vec<u8>)
    requires
        sender.is_valid(),
        sender.phase is Reading,
        first@.len() > 0,
        second@.len() > 0,
        sender.phase->Reading_sent.len() + first@.len() + second@.len() <= 0x1FFF_FFFF_FFFF_FFFF,
    ensures
        ({
            let (waiting, one) = sender.after(SenderEvent::Read(first));
            let (reading, none) = waiting.after(SenderEvent::Acknowledged);
            let (after, two) = reading.after(SenderEvent::Read(second));
            &&& none is None
            &&& one matches Some(
                MessageView::FileChunk { id: a, file_index: i, offset: at, data: x },
            )
            &&& two matches Some(
                MessageView::FileChunk { id: b, file_index: j, offset: to, data: y },
            )
            &&& a == b
            &&& i == j
            &&& x == first@
            &&& y == second@
            &&& to == at + x.len()
        }),
{
}

} // verus!
