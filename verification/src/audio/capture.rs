//! Control of the capture actor: which device it binds to, which commands it
//! obeys, and whether a captured frame is queued or dropped.

use crate::audio::queue::{push_slice, FrameProducer};
use crate::text::same_text;
use vstd::prelude::*;

verus! {

/// A lifecycle command for the capture actor.
#[derive(Debug, Clone, Copy, PartialEq, Eq, Structural)]
pub enum AudioCommand {
    /// Forward captured frames.
    Start,
    /// Keep draining the device, but drop what it delivers.
    Stop,
    /// End the actor and release the stream.
    Quit,
}

/// What the caller holds of a running capture actor: the sender for its
/// commands, and the format the device delivers.
pub struct AudioHandle<S> {
    pub cmd_tx: S,
    pub sample_rate: u32,
    pub channels: u16,
}

/// Why capture could not start.
#[derive(Debug, Clone, Copy, PartialEq, Eq, Structural)]
pub enum CaptureError {
    /// No device of the requested name, or no device at all.
    NoInputDevice,
}

/// The device to bind to.
#[derive(Debug, Clone, Copy, PartialEq, Eq, Structural)]
pub enum DeviceChoice {
    /// The device at this position of the list that was searched.
    Listed(usize),
    /// The host's default input device.
    HostDefault,
}

/// Lower-case form of `text`, as `str::to_lowercase` returns it.
pub uninterp spec fn lowercased(text: Seq<char>) -> Seq<char>;

/// `str::to_lowercase` of std: `text` with every character replaced by its
/// Unicode lower-case mapping. The contract only names that result.
#[verifier::external_body]
fn to_lowercase(text: &str) -> (lower: String)
    ensures
        lower@ == lowercased(text@),
{
    text.to_lowercase()
}

/// Whether a device of this lower-cased name is one of the sound servers that are preferred.
pub open spec fn is_sound_server(lower: Seq<char>) -> bool {
    lower == "pulse"@ || lower == "pipewire"@
}

/// Whether a name that is already in lower case is that of a preferred sound server.
pub fn is_preferred_server(lower: &str) -> (preferred: bool)
    ensures
        preferred == is_sound_server(lower@),
{
    same_text(lower, "pulse") || same_text(lower, "pipewire")
}

/// Whether the request names a particular device.
pub open spec fn names_device(requested: Option<Seq<char>>) -> bool {
    requested is Some && requested->0 != "default"@
}

/// Whether the device at `index` is the one to take for `requested`.
pub open spec fn device_matches(
    requested: Option<Seq<char>>,
    names: Seq<Option<Seq<char>>>,
    index: int,
) -> bool {
    match names[index] {
        Some(name) => if names_device(requested) {
            name == requested->0
        } else {
            is_sound_server(lowercased(name))
        },
        None => false,
    }
}

/// The request as plain values.
pub open spec fn request_view(requested: Option<&str>) -> Option<Seq<char>> {
    match requested {
        Some(name) => Some(name@),
        None => None,
    }
}

/// The device names as plain values.
pub open spec fn names_view(names: Seq<Option<String>>) -> Seq<Option<Seq<char>>> {
    Seq::new(
        names.len(),
        |i: int|
            match names[i] {
                Some(name) => Some(name@),
                None => None,
            },
    )
}

/// The capture actor's state.
#[derive(Debug, Clone, Copy, PartialEq, Eq, Structural)]
pub enum CaptureState {
    /// Frames are forwarded to the queue.
    Running,
    /// Frames are drained and dropped.
    Paused,
    /// The actor has ended and the stream is released.
    Terminated,
}

/// What the actor does to the native stream after a command.
#[derive(Debug, Clone, Copy, PartialEq, Eq, Structural)]
pub enum StreamAction {
    /// Nothing.
    Keep,
    /// Forward frames from now on.
    Resume,
    /// Drop frames from now on.
    Suspend,
    /// Leave the loop and drop the stream.
    Release,
}

impl CaptureState {
    /// The state after `command`; `None` stands for a command channel whose
    /// senders are all gone. Nothing moves an actor that has ended.
    pub open spec fn after(self, command: Option<AudioCommand>) -> CaptureState {
        if self == CaptureState::Terminated {
            CaptureState::Terminated
        } else {
            match command {
                Some(AudioCommand::Start) => CaptureState::Running,
                Some(AudioCommand::Stop) => CaptureState::Paused,
                Some(AudioCommand::Quit) | None => CaptureState::Terminated,
            }
        }
    }

    /// The state after each of `commands` in turn.
    pub open spec fn after_all(self, commands: Seq<AudioCommand>) -> CaptureState
        decreases commands.len(),
    {
        if commands.len() == 0 {
            self
        } else {
            self.after_all(commands.drop_last()).after(Some(commands.last()))
        }
    }

    /// What a change from `self` to `next` asks of the stream.
    pub open spec fn action_towards(self, next: CaptureState) -> StreamAction {
        if self == CaptureState::Terminated {
            StreamAction::Keep
        } else {
            match next {
                CaptureState::Running => StreamAction::Resume,
                CaptureState::Paused => StreamAction::Suspend,
                CaptureState::Terminated => StreamAction::Release,
            }
        }
    }
}

/// The state machine of the capture actor.
pub struct CaptureActor {
    state: CaptureState,
}

impl View for CaptureActor {
    type V = CaptureState;

    closed spec fn view(&self) -> CaptureState {
        self.state
    }
}

impl CaptureActor {
    /// An actor that has just bound its stream: it forwards frames at once.
    pub fn spawn() -> (actor: Self)
        ensures
            actor@ == CaptureState::Running,
    {
        CaptureActor { state: CaptureState::Running }
    }

    /// The state the actor is in.
    pub fn state(&self) -> (state: CaptureState)
        ensures
            state == self@,
    {
        self.state
    }

    /// Obeys one command, or the loss of the command channel when `command`
    /// is `None`, and says what to do to the stream.
    pub fn handle_command(&mut self, command: Option<AudioCommand>) -> (action: StreamAction)
        ensures
            final(self)@ == old(self)@.after(command),
            action == old(self)@.action_towards(final(self)@),
    {
        if self.state == CaptureState::Terminated {
            return StreamAction::Keep;
        }
        match command {
            Some(AudioCommand::Start) => {
                self.state = CaptureState::Running;
                StreamAction::Resume
            },
            Some(AudioCommand::Stop) => {
                self.state = CaptureState::Paused;
                StreamAction::Suspend
            },
            _ => {
                self.state = CaptureState::Terminated;
                StreamAction::Release
            },
        }
    }

    /// Obeys all commands that are waiting, oldest first, and then the loss
    /// of the command channel if `channel_lost` says so. Says what to do to
    /// the stream now: commands after a `Quit` are never looked at, and with
    /// nothing waiting and the channel alive the stream is left as it is.
    pub fn drain_commands(&mut self, commands: &[AudioCommand], channel_lost: bool) -> (action:
        StreamAction)
        ensures
            final(self)@ == if channel_lost {
                old(self)@.after_all(commands@).after(None)
            } else {
                old(self)@.after_all(commands@)
            },
            action == if commands.len() == 0 && !channel_lost {
                StreamAction::Keep
            } else {
                old(self)@.action_towards(final(self)@)
            },
    {
        let before: CaptureState = self.state;
        let mut i: usize = 0;
        while i < commands.len()
            invariant
                i <= commands.len(),
                before == old(self)@,
                self@ == old(self)@.after_all(commands@.take(i as int)),
            decreases commands.len() - i,
        {
            proof {
                assert(commands@.take(i as int + 1).drop_last() =~= commands@.take(i as int));
            }
            self.handle_command(Some(commands[i]));
            i = i + 1;
        }
        proof {
            assert(commands@.take(i as int) =~= commands@);
        }
        if channel_lost {
            self.handle_command(None);
        }
        if (commands.len() == 0 && !channel_lost) || before == CaptureState::Terminated {
            StreamAction::Keep
        } else {
            match self.state {
                CaptureState::Running => StreamAction::Resume,
                CaptureState::Paused => StreamAction::Suspend,
                CaptureState::Terminated => StreamAction::Release,
            }
        }
    }
}

/// Hands a captured frame on: into the queue while the actor is running,
/// nowhere otherwise. Returns how many samples were queued; a full queue
/// takes fewer than it was offered.
pub fn forward_frame<T: Copy>(
    state: CaptureState,
    producer: &mut FrameProducer<T>,
    frame: &[T],
) -> (queued: usize)
    ensures
        queued <= frame@.len(),
        state != CaptureState::Running ==> queued == 0,
        state != CaptureState::Running ==> *final(producer) == *old(producer),
        final(producer).slots() == old(producer).slots(),
{
    if state == CaptureState::Running {
        push_slice(producer, frame)
    } else {
        0
    }
}

/// The names among `probed`, in order; a device without a readable name is left out.
pub open spec fn readable_names(probed: Seq<Option<Seq<char>>>) -> Seq<Seq<char>>
    decreases probed.len(),
{
    if probed.len() == 0 {
        Seq::empty()
    } else {
        match probed.last() {
            Some(name) => readable_names(probed.drop_last()).push(name),
            None => readable_names(probed.drop_last()),
        }
    }
}

/// Encapsulates the choice of the input device.
pub struct AudioCapture;

impl AudioCapture {
    /// The names of the devices that have one, in the order they were probed.
    pub fn list_devices(probed: &Vec<Option<String>>) -> (names: Vec<String>)
        ensures
            names.len() == readable_names(names_view(probed@)).len(),
            forall|i: int|
                0 <= i < names.len() ==> (#[trigger] names[i])@ == readable_names(
                    names_view(probed@),
                )[i],
    {
        let mut names: Vec<String> = Vec::new();
        let mut i: usize = 0;
        let ghost all = names_view(probed@);
        while i < probed.len()
            invariant
                i <= probed.len(),
                all == names_view(probed@),
                names.len() == readable_names(all.take(i as int)).len(),
                forall|k: int|
                    0 <= k < names.len() ==> (#[trigger] names[k])@ == readable_names(
                        all.take(i as int),
                    )[k],
            decreases probed.len() - i,
        {
            proof {
                assert(all.take(i as int + 1).drop_last() =~= all.take(i as int));
                assert(all.take(i as int + 1).last() == all[i as int]);
            }
            match &probed[i] {
                Some(name) => {
                    names.push(name.clone());
                },
                None => {},
            }
            i = i + 1;
        }
        proof {
            assert(all.take(i as int) =~= all);
        }
        names
    }

    /// Picks the device to capture from.
    ///
    /// A request that names a device, other than by the word `default`, takes
    /// the first listed device of exactly that name and fails when there is
    /// none. Any other request takes the first listed device whose name, in
    /// lower case, is `pulse` or `pipewire`, else the host's default device,
    /// and fails when the host has none.
    pub fn resolve_device(
        requested: Option<&str>,
        names: &Vec<Option<String>>,
        host_has_default: bool,
    ) -> (choice: Result<DeviceChoice, CaptureError>)
        ensures
            match choice {
                Ok(DeviceChoice::Listed(index)) => {
                    &&& index < names.len()
                    &&& device_matches(request_view(requested), names_view(names@), index as int)
                    &&& forall|k: int|
                        0 <= k < index ==> !device_matches(
                            request_view(requested),
                            names_view(names@),
                            k,
                        )
                },
                Ok(DeviceChoice::HostDefault) => {
                    &&& !names_device(request_view(requested))
                    &&& host_has_default
                    &&& forall|k: int|
                        0 <= k < names.len() ==> !device_matches(
                            request_view(requested),
                            names_view(names@),
                            k,
                        )
                },
                Err(error) => {
                    &&& error == CaptureError::NoInputDevice
                    &&& names_device(request_view(requested)) || !host_has_default
                    &&& forall|k: int|
                        0 <= k < names.len() ==> !device_matches(
                            request_view(requested),
                            names_view(names@),
                            k,
                        )
                },
            },
    {
        let wanted: Option<&str> = match requested {
            Some(name) => if same_text(name, "default") {
                None
            } else {
                Some(name)
            },
            None => None,
        };
        let mut i: usize = 0;
        while i < names.len()
            invariant
                i <= names.len(),
                wanted is Some <==> names_device(request_view(requested)),
                wanted is Some ==> wanted->0@ == request_view(requested)->0,
                forall|k: int|
                    0 <= k < i ==> !device_matches(request_view(requested), names_view(names@), k),
            decreases names.len() - i,
        {
            let hit: bool = match &names[i] {
                Some(name) => match wanted {
                    Some(exact) => same_text(name.as_str(), exact),
                    None => {
                        let lower: String = to_lowercase(name.as_str());
                        is_preferred_server(lower.as_str())
                    },
                },
                None => false,
            };
            if hit {
                return Ok(DeviceChoice::Listed(i));
            }
            i = i + 1;
        }
        if wanted.is_none() && host_has_default {
            Ok(DeviceChoice::HostDefault)
        } else {
            Err(CaptureError::NoInputDevice)
        }
    }
}

} // verus!
