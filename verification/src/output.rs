//! The output side: what an output plays, frame by frame, and which output
//! to use.

use std::collections::VecDeque;

use vstd::prelude::*;

use crate::audio::AudioStatus;
use crate::text::same_text;

verus! {

/// Processed stereo samples that wait to be played.
pub struct OutputQueue {
    pub pending: VecDeque<i16>,
}

/// The status after one more frame was played.
pub open spec fn with_frame(status: AudioStatus) -> AudioStatus {
    AudioStatus {
        queued: if status.queued >= 2 {
            (status.queued - 2) as usize
        } else {
            0
        },
        frames_played: status.frames_played.wrapping_add(1),
        ..status
    }
}

impl OutputQueue {
    /// The samples in playing order.
    pub open spec fn samples(self) -> Seq<i16> {
        self.pending@
    }

    /// Nothing to play yet.
    pub fn new() -> (queue: OutputQueue)
        ensures
            queue.samples() == Seq::<i16>::empty(),
    {
        OutputQueue { pending: VecDeque::new() }
    }

    /// Whether less than one frame is left, so that another chunk is due.
    pub fn needs_chunk(&self) -> (yes: bool)
        ensures
            yes == (self.samples().len() < 2),
    {
        self.pending.len() < 2
    }

    /// Add a chunk behind what is there.
    pub fn push_chunk(&mut self, chunk: Vec<i16>)
        ensures
            final(self).samples() == old(self).samples() + chunk@,
    {
        let mut i: usize = 0;
        while i < chunk.len()
            invariant
                i <= chunk@.len(),
                self.samples() == old(self).samples() + chunk@.take(i as int),
            decreases chunk@.len() - i,
        {
            self.pending.push_back(chunk[i]);
            assert(self.samples() =~= old(self).samples() + chunk@.take(i + 1));
            i += 1;
        }
        assert(chunk@.take(i as int) =~= chunk@);
    }

    /// The next frame, left and right; silence when there is none. A single
    /// sample at the end plays with silence on the right.
    pub fn pop_frame(&mut self, status: &mut AudioStatus) -> (frame: (i16, i16))
        ensures
            old(self).samples().len() == 0 ==> {
                &&& frame == (0i16, 0i16)
                &&& final(self).samples() == old(self).samples()
                &&& *final(status) == *old(status)
            },
            old(self).samples().len() > 0 ==> {
                &&& frame.0 == old(self).samples()[0]
                &&& frame.1 == (if old(self).samples().len() > 1 {
                    old(self).samples()[1]
                } else {
                    0
                })
                &&& final(self).samples() == old(self).samples().skip(
                    if old(self).samples().len() > 1 {
                        2
                    } else {
                        1
                    },
                )
                &&& *final(status) == with_frame(*old(status))
                &&& final(status).frames_played == (old(status).frames_played + 1)
                    % 0x1_0000_0000_0000_0000
                &&& old(status).queued >= 2 ==> final(status).queued == old(status).queued - 2
                &&& old(status).queued < 2 ==> final(status).queued == 0
            },
    {
        match self.pending.pop_front() {
            Some(l) => {
                let r: i16 = match self.pending.pop_front() {
                    Some(r) => r,
                    None => 0,
                };
                status.queued = status.queued.saturating_sub(2);
                status.frames_played = status.frames_played.wrapping_add(1);
                assert(self.samples() =~= old(self).samples().skip(
                    if old(self).samples().len() > 1 {
                        2
                    } else {
                        1
                    },
                ));
                (l, r)
            },
            None => (0, 0),
        }
    }
}

/// Count a chunk of `samples` samples as written to a pipe.
pub fn note_written(status: &mut AudioStatus, samples: usize)
    ensures
        *final(status) == (AudioStatus {
            queued: if old(status).queued >= samples {
                (old(status).queued - samples) as usize
            } else {
                0
            },
            frames_played: old(status).frames_played.wrapping_add((samples / 2) as u64),
            ..*old(status)
        }),
{
    status.queued = status.queued.saturating_sub(samples);
    status.frames_played = status.frames_played.wrapping_add((samples / 2) as u64);
}

/// A stereo frame on a device with `channels` channels: a single channel
/// plays the left side, channels past the second stay silent.
pub open spec fn device_frame(left: i16, right: i16, channels: nat) -> Seq<i16> {
    Seq::new(
        channels,
        |i: int|
            if i == 0 {
                left
            } else if i == 1 {
                right
            } else {
                0
            },
    )
}

/// Lay a stereo frame out on a device with `channels` channels.
pub fn place_frame(left: i16, right: i16, channels: usize) -> (frame: Vec<i16>)
    ensures
        frame@ == device_frame(left, right, channels as nat),
        frame@.len() == channels,
        channels >= 1 ==> frame@[0] == left,
        channels >= 2 ==> frame@[1] == right,
        forall|i: int| 2 <= i < channels ==> #[trigger] frame@[i] == 0,
{
    let mut frame: Vec<i16> = Vec::new();
    let mut i: usize = 0;
    while i < channels
        invariant
            i <= channels,
            frame@ == device_frame(left, right, i as nat),
        decreases channels - i,
    {
        if i == 0 {
            frame.push(left);
        } else if i == 1 {
            frame.push(right);
        } else {
            frame.push(0);
        }
        assert(frame@ =~= device_frame(left, right, (i + 1) as nat));
        i += 1;
    }
    frame
}

/// The frames that a queue plays out, as far as they are whole.
pub open spec fn played(samples: Seq<i16>) -> Seq<(i16, i16)> {
    Seq::new(samples.len() / 2, |i: int| (samples[2 * i], samples[2 * i + 1]))
}

/// Chunks of whole frames play in the order in which they came, with nothing
/// lost or put between them.
pub proof fn chunks_play_in_order(queue: Seq<i16>, chunk: Seq<i16>)
    requires
        queue.len() % 2 == 0,
    ensures
        played(queue + chunk) == played(queue) + played(chunk),
        queue.len() >= 2 ==> played(queue) == seq![(queue[0], queue[1])] + played(queue.skip(2)),
{
    assert(played(queue + chunk) =~= played(queue) + played(chunk));
    if queue.len() >= 2 {
        assert(played(queue) =~= seq![(queue[0], queue[1])] + played(queue.skip(2)));
    }
}

/// Where processed audio goes when it does not go to the sound card.
pub enum OutputTarget {
    /// Raw PCM on stdout.
    Stdout,
    /// Raw PCM into the FIFO at this path.
    Fifo(String),
}

impl OutputTarget {
    /// The target that `--output` asks for: the sound card (`None`) without it
    /// or for `default`, stdout for `-`, otherwise a FIFO path.
    pub fn parse(output: Option<&str>) -> (target: Option<OutputTarget>)
        ensures
            output is None ==> target is None,
            output matches Some(text) ==> {
                &&& target is None <==> text@ == "default"@
                &&& text@ == "-"@ ==> target == Some(OutputTarget::Stdout)
                &&& text@ != "-"@ && text@ != "default"@ ==> {
                    &&& target is Some
                    &&& target->0 is Fifo
                    &&& target->0->Fifo_0@ == text@
                }
            },
    {
        proof {
            reveal_strlit("-");
            reveal_strlit("default");
            assert("-"@.len() != "default"@.len());
        }
        match output {
            None => None,
            Some(text) => {
                if same_text(text, "default") {
                    None
                } else if same_text(text, "-") {
                    Some(OutputTarget::Stdout)
                } else {
                    Some(OutputTarget::Fifo(text.to_owned()))
                }
            },
        }
    }

    /// The target's name on the status line.
    pub open spec fn name(self) -> Seq<char> {
        match self {
            OutputTarget::Stdout => "stdout"@,
            OutputTarget::Fifo(path) => path@,
        }
    }

    /// The target's name on the status line.
    pub fn label(&self) -> (name: String)
        ensures
            name@ == self.name(),
            self is Stdout ==> name@ == "stdout"@,
            self matches OutputTarget::Fifo(path) ==> name@ == path@,
    {
        match self {
            OutputTarget::Stdout => "stdout".to_owned(),
            OutputTarget::Fifo(path) => path.clone(),
        }
    }
}

/// What stands at an input path.
#[derive(Debug, Clone, Copy, PartialEq, Eq, Structural)]
pub enum FileKind {
    Socket,
    Fifo,
    Other,
}

/// How to open an input.
#[derive(Debug, Clone, Copy, PartialEq, Eq, Structural)]
pub enum OpenAction {
    /// Read stdin.
    UseStdin,
    /// Nothing is there: make a FIFO, then look again.
    MakeFifo,
    /// Connect to the socket.
    Connect,
    /// Open the file; `fifo` tells whether to open it again at its end.
    OpenFile { fifo: bool },
}

/// How to open `input`, given what stands at that path.
pub open spec fn opening(input: Seq<char>, found: Option<FileKind>) -> OpenAction {
    if input == "-"@ {
        OpenAction::UseStdin
    } else {
        match found {
            None => OpenAction::MakeFifo,
            Some(FileKind::Socket) => OpenAction::Connect,
            Some(FileKind::Fifo) => OpenAction::OpenFile { fifo: true },
            Some(FileKind::Other) => OpenAction::OpenFile { fifo: false },
        }
    }
}

/// How to open `input`, given what stands at that path. A path where nothing
/// stands becomes a FIFO, so that the reader can start before the writer.
pub fn open_action(input: &str, found: Option<FileKind>) -> (action: OpenAction)
    ensures
        action == opening(input@, found),
        action == OpenAction::UseStdin <==> input@ == "-"@,
        input@ != "-"@ ==> {
            &&& action == OpenAction::MakeFifo <==> found is None
            &&& action == OpenAction::Connect <==> found == Some(FileKind::Socket)
            &&& action == OpenAction::OpenFile { fifo: true } <==> found == Some(FileKind::Fifo)
            &&& action == OpenAction::OpenFile { fifo: false } <==> found == Some(FileKind::Other)
        },
{
    if same_text(input, "-") {
        return OpenAction::UseStdin;
    }
    match found {
        None => OpenAction::MakeFifo,
        Some(FileKind::Socket) => OpenAction::Connect,
        Some(FileKind::Fifo) => OpenAction::OpenFile { fifo: true },
        Some(FileKind::Other) => OpenAction::OpenFile { fifo: false },
    }
}

/// A frame that was played counts as one frame, and its two samples are no
/// longer on their way. Nothing else changes.
pub proof fn a_frame_counts_once(status: AudioStatus)
    ensures
        ({
            let after = with_frame(status);
            &&& after.frames_played == (status.frames_played + 1) % 0x1_0000_0000_0000_0000
            &&& status.queued >= 2 ==> after.queued == status.queued - 2
            &&& status.queued < 2 ==> after.queued == 0
            &&& after.peak_l == status.peak_l
            &&& after.peak_r == status.peak_r
            &&& after.state == status.state
            &&& after.error == status.error
        }),
{
}

/// The left side plays on the first channel of a device and the right side on
/// the second; all others are silent.
pub proof fn sides_play_on_their_channels(left: i16, right: i16, channels: nat, i: int)
    requires
        0 <= i < channels,
    ensures
        device_frame(left, right, channels).len() == channels,
        i == 0 ==> device_frame(left, right, channels)[i] == left,
        i == 1 ==> device_frame(left, right, channels)[i] == right,
        i >= 2 ==> device_frame(left, right, channels)[i] == 0,
{
}

/// Stdin is read whatever stands at a path called `-`; otherwise sockets are
/// connected to, files opened, those that are FIFOs again at their end, and
/// where nothing stands a FIFO is made.
pub proof fn inputs_are_opened_by_what_they_are(input: Seq<char>, found: Option<FileKind>)
    ensures
        opening(input, found) == OpenAction::UseStdin <==> input == "-"@,
        input != "-"@ ==> {
            &&& opening(input, None) == OpenAction::MakeFifo
            &&& opening(input, Some(FileKind::Socket)) == OpenAction::Connect
            &&& opening(input, Some(FileKind::Fifo)) == (OpenAction::OpenFile { fifo: true })
            &&& opening(input, Some(FileKind::Other)) == (OpenAction::OpenFile { fifo: false })
        },
{
}

} // verus!
