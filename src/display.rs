//! The protocol of a 1.54 inch tri-color electronic-ink panel.
//!
//! The driver is a state machine. Each operation returns the exact sequence
//! of bus operations that carries it out (reset line, data/command line, byte
//! transfers, delays, waits on the busy line); a transport that blocks and
//! one that suspends both run the same sequence, so the protocol lives here
//! once.
use vstd::prelude::*;

use vstd::slice::slice_subrange;
use vstd::slice::slice_to_vec;

use crate::command;
use crate::framebuffer::Buffer;

verus! {

/// Flag for a busy line that is active low
pub const IS_BUSY_LOW: bool = false;

/// Panel width in pixels
pub const WIDTH: usize = 200;

/// Panel height in pixels
pub const HEIGHT: usize = 200;

/// Size of each plane in bytes
pub const BYTE_SIZE: usize = 5000;

/// Bytes per panel row
pub const LINEWIDTH: usize = 25;

/// One operation on the panel's bus and control lines
#[derive(Debug, PartialEq, Eq)]
pub enum BusOp {
    /// Drive the reset line high (`true`) or low
    SetReset(bool),
    /// Drive the data/command line: high (`true`) for data, low for a command
    SetDataMode(bool),
    /// Write the bytes in one bus transfer
    Write(Vec<u8>),
    /// Pause for a number of milliseconds
    DelayMs(u32),
    /// Wait until the busy line reports idle
    WaitUntilIdle,
}

/// What a bus operation does, with its bytes as a sequence
pub enum BusStep {
    SetReset(bool),
    SetDataMode(bool),
    Write(Seq<u8>),
    DelayMs(u32),
    WaitUntilIdle,
}

impl View for BusOp {
    type V = BusStep;

    open spec fn view(&self) -> BusStep {
        match self {
            BusOp::SetReset(b) => BusStep::SetReset(*b),
            BusOp::SetDataMode(b) => BusStep::SetDataMode(*b),
            BusOp::Write(v) => BusStep::Write(v@),
            BusOp::DelayMs(ms) => BusStep::DelayMs(*ms),
            BusOp::WaitUntilIdle => BusStep::WaitUntilIdle,
        }
    }
}

/// What a sequence of bus operations does
pub open spec fn steps(ops: Seq<BusOp>) -> Seq<BusStep> {
    ops.map_values(|o: BusOp| o@)
}

/// How byte transfers are split
#[derive(Copy, Clone, Debug, PartialEq, Eq, Structural)]
pub enum WriteMode {
    /// All bytes of a write in one transfer
    Whole,
    /// At most this many bytes per transfer, in order
    Chunked(usize),
}

/// Whether a write mode can carry bytes
pub open spec fn valid_mode(mode: WriteMode) -> bool {
    match mode {
        WriteMode::Whole => true,
        WriteMode::Chunked(n) => n > 0,
    }
}

/// Transfers of `data` in chunks of at most `n` bytes, in order
pub open spec fn chunk_steps(data: Seq<u8>, n: nat) -> Seq<BusStep>
    decreases data.len(),
{
    if n == 0 || data.len() == 0 {
        Seq::empty()
    } else if data.len() <= n {
        seq![BusStep::Write(data)]
    } else {
        seq![BusStep::Write(data.take(n as int))] + chunk_steps(data.skip(n as int), n)
    }
}

/// The bytes that a sequence of steps writes, in order
pub open spec fn written_bytes(steps: Seq<BusStep>) -> Seq<u8>
    decreases steps.len(),
{
    if steps.len() == 0 {
        Seq::empty()
    } else {
        (match steps[0] {
            BusStep::Write(bytes) => bytes,
            _ => Seq::empty(),
        }) + written_bytes(steps.skip(1))
    }
}

/// Splitting a write into chunks keeps every byte, in order: the chunks
/// together are the data, and each holds at least one and at most `n` bytes
pub proof fn lemma_chunks_preserve_bytes(data: Seq<u8>, n: nat)
    requires
        n > 0,
    ensures
        written_bytes(chunk_steps(data, n)) == data,
        forall|k: int|
            0 <= k < chunk_steps(data, n).len() ==> (#[trigger] chunk_steps(data, n)[k] matches BusStep::Write(
                bytes,
            ) && 0 < bytes.len() <= n),
    decreases data.len(),
{
    let steps = chunk_steps(data, n);
    if data.len() == 0 {
    } else if data.len() <= n {
        assert(steps.skip(1) =~= Seq::<BusStep>::empty());
        assert(written_bytes(steps.skip(1)) =~= Seq::<u8>::empty());
        assert(written_bytes(steps) =~= data);
    } else {
        let rest = data.skip(n as int);
        lemma_chunks_preserve_bytes(rest, n);
        assert(steps.skip(1) =~= chunk_steps(rest, n));
        assert(data.take(n as int) + rest =~= data);
        assert forall|k: int| 0 <= k < steps.len() implies (#[trigger] steps[k] matches BusStep::Write(
            bytes,
        ) && 0 < bytes.len() <= n) by {
            if k > 0 {
                assert(steps[k] == chunk_steps(rest, n)[k - 1]);
            }
        }
    }
}

/// Transfers that write `data` in a write mode
pub open spec fn write_steps(data: Seq<u8>, mode: WriteMode) -> Seq<BusStep> {
    match mode {
        WriteMode::Whole => seq![BusStep::Write(data)],
        WriteMode::Chunked(n) => chunk_steps(data, n as nat),
    }
}

/// Sending a command: the data/command line low, then the opcode
pub open spec fn command_steps(c: u8, mode: WriteMode) -> Seq<BusStep> {
    seq![BusStep::SetDataMode(false)] + write_steps(seq![c], mode)
}

/// Sending data: the data/command line high, then the bytes
pub open spec fn data_steps(data: Seq<u8>, mode: WriteMode) -> Seq<BusStep> {
    seq![BusStep::SetDataMode(true)] + write_steps(data, mode)
}

/// Whether the busy line reports busy, given whether it is at high level
pub open spec fn busy_at(level_high: bool) -> bool {
    if IS_BUSY_LOW {
        !level_high
    } else {
        level_high
    }
}

/// Whether the panel is busy, given the busy line's level
pub fn is_busy(level_high: bool) -> (r: bool)
    ensures
        r == busy_at(level_high),
{
    (IS_BUSY_LOW && !level_high) || (!IS_BUSY_LOW && level_high)
}

proof fn lemma_steps_push(ops: Seq<BusOp>, op: BusOp)
    ensures
        steps(ops.push(op)) == steps(ops).push(op@),
{
    assert(steps(ops.push(op)) =~= steps(ops).push(op@));
}

/// Append the transfers that write `data`
fn push_write(ops: &mut Vec<BusOp>, data: &[u8], mode: WriteMode)
    requires
        valid_mode(mode),
    ensures
        steps(final(ops)@) == steps(old(ops)@) + write_steps(data@, mode),
{
    match mode {
        WriteMode::Whole => {
            let bytes = slice_to_vec(data);
            proof {
                lemma_steps_push(ops@, BusOp::Write(bytes));
            }
            ops.push(BusOp::Write(bytes));
            assert(steps(ops@) =~= steps(old(ops)@) + write_steps(data@, mode));
        },
        WriteMode::Chunked(n) => {
            let len = data.len();
            let mut i: usize = 0;
            assert(data@.skip(0) =~= data@);
            while i < len
                invariant
                    n > 0,
                    len == data@.len(),
                    i <= len,
                    steps(ops@) + chunk_steps(data@.skip(i as int), n as nat) == steps(old(ops)@)
                        + chunk_steps(data@, n as nat),
                decreases len - i,
            {
                let end = if len - i <= n {
                    len
                } else {
                    i + n
                };
                let chunk = slice_to_vec(slice_subrange(data, i, end));
                proof {
                    let rest = data@.skip(i as int);
                    assert(rest.len() > 0);
                    if rest.len() <= n {
                        assert(chunk@ =~= rest);
                        assert(data@.skip(end as int) =~= Seq::<u8>::empty());
                    } else {
                        assert(chunk@ =~= rest.take(n as int));
                        assert(rest.skip(n as int) =~= data@.skip(end as int));
                    }
                    lemma_steps_push(ops@, BusOp::Write(chunk));
                }
                ops.push(BusOp::Write(chunk));
                proof {
                    let rest = data@.skip(i as int);
                    let tail = chunk_steps(data@.skip(end as int), n as nat);
                    if rest.len() <= n {
                        assert(chunk_steps(data@.skip(end as int), n as nat) =~= Seq::<BusStep>::empty());
                    }
                    assert(steps(ops@) + tail =~= steps(old(ops)@) + chunk_steps(data@, n as nat));
                }
                i = end;
            }
            assert(data@.skip(len as int) =~= Seq::<u8>::empty());
            assert(steps(ops@) =~= steps(old(ops)@) + chunk_steps(data@, n as nat));
        },
    }
}

/// Append one operation
fn push_op(ops: &mut Vec<BusOp>, op: BusOp)
    ensures
        steps(final(ops)@) == steps(old(ops)@).push(op@),
{
    proof {
        lemma_steps_push(ops@, op);
    }
    ops.push(op);
}

/// Append the sending of a command
fn push_command(ops: &mut Vec<BusOp>, c: u8, mode: WriteMode)
    requires
        valid_mode(mode),
    ensures
        steps(final(ops)@) == steps(old(ops)@) + command_steps(c, mode),
{
    push_op(ops, BusOp::SetDataMode(false));
    let bytes: [u8; 1] = [c];
    assert(bytes@ =~= seq![c]);
    push_write(ops, bytes.as_slice(), mode);
    assert(steps(ops@) =~= steps(old(ops)@) + command_steps(c, mode));
}

/// Append the sending of data
fn push_data(ops: &mut Vec<BusOp>, data: &[u8], mode: WriteMode)
    requires
        valid_mode(mode),
    ensures
        steps(final(ops)@) == steps(old(ops)@) + data_steps(data@, mode),
{
    push_op(ops, BusOp::SetDataMode(true));
    push_write(ops, data, mode);
    assert(steps(ops@) =~= steps(old(ops)@) + data_steps(data@, mode));
}

/// `s` repeated `n` times
pub open spec fn repeat(s: Seq<BusStep>, n: nat) -> Seq<BusStep>
    decreases n,
{
    if n == 0 {
        Seq::empty()
    } else {
        repeat(s, (n - 1) as nat) + s
    }
}

/// Pulse of the reset line
pub open spec fn hardware_reset_steps() -> Seq<BusStep> {
    seq![
        BusStep::SetReset(true),
        BusStep::DelayMs(10),
        BusStep::SetReset(false),
        BusStep::DelayMs(10),
        BusStep::SetReset(true),
        BusStep::DelayMs(200),
    ]
}

/// Software reset, once the panel is idle
pub open spec fn software_reset_steps(mode: WriteMode) -> Seq<BusStep> {
    seq![BusStep::WaitUntilIdle] + command_steps(command::SOFTWARE_RESET, mode)
}

/// Driver output control: gate lines and scanning order
pub open spec fn driver_output_control_steps(mode: WriteMode) -> Seq<BusStep> {
    seq![BusStep::WaitUntilIdle] + command_steps(command::DRIVER_OUTPUT_CONTROL, mode) + data_steps(
        seq![0xc7u8, 0x00u8, 0x01u8],
        mode,
    )
}

/// The addressable RAM window of a panel of `width` × `height` pixels: X
/// from byte 0 to `width / 8 - 1`, Y from row `height - 1` down to row 0,
/// multi-byte bounds little-endian
pub open spec fn ram_size_steps(width: nat, height: nat, mode: WriteMode) -> Seq<BusStep> {
    let y_start = (height - 1) as nat;
    command_steps(command::DATA_ENTRY_MODE, mode) + data_steps(seq![0x01u8], mode) + command_steps(
        command::SET_RAM_X_ADDRESS_START_END_POSITION,
        mode,
    ) + data_steps(seq![0x00u8, (width / 8 - 1) as u8], mode) + command_steps(
        command::SET_RAM_Y_ADDRESS_START_END_POSITION,
        mode,
    ) + data_steps(seq![(y_start % 256) as u8, (y_start / 256) as u8, 0x00u8, 0x00u8], mode)
}

/// Border waveform control
pub open spec fn border_waveform_control_steps(mode: WriteMode) -> Seq<BusStep> {
    command_steps(command::BORDER_WAVEFORM_CONTROL, mode) + data_steps(seq![0x05u8], mode)
}

/// RAM address counters at the window's first byte and row
pub open spec fn ram_address_counters_steps(mode: WriteMode) -> Seq<BusStep> {
    command_steps(command::SET_RAM_X_ADDRESS_COUNTER, mode) + data_steps(seq![0x00u8], mode)
        + command_steps(command::SET_RAM_Y_ADDRESS_COUNTER, mode) + data_steps(seq![0xc7u8], mode)
        + data_steps(seq![0x00u8], mode)
}

/// The whole initialization
pub open spec fn initialize_steps(mode: WriteMode) -> Seq<BusStep> {
    hardware_reset_steps() + software_reset_steps(mode) + driver_output_control_steps(mode)
        + ram_size_steps(WIDTH as nat, HEIGHT as nat, mode) + border_waveform_control_steps(mode)
        + ram_address_counters_steps(mode) + seq![BusStep::WaitUntilIdle]
}

/// A refresh: update control with a fixed waveform, master activation, and
/// a wait until the panel is idle again
pub open spec fn refresh_steps(mode: WriteMode) -> Seq<BusStep> {
    command_steps(command::DISPLAY_UPDATE_CONTROL_2, mode) + data_steps(seq![0xf7u8], mode)
        + command_steps(command::MASTER_ACTIVATION, mode) + seq![BusStep::WaitUntilIdle]
}

/// Writing the black plane to RAM
pub open spec fn transfer_black_steps(black: Seq<u8>, mode: WriteMode) -> Seq<BusStep> {
    command_steps(command::WRITE_RAM_BLACK, mode) + data_steps(black, mode)
}

/// The chromatic plane as the controller stores it: each byte complemented,
/// cut or padded with zeros to a full plane
pub open spec fn inverted_plane(chromatic: Seq<u8>) -> Seq<u8> {
    Seq::new(BYTE_SIZE as nat, |i: int| if i < chromatic.len() { !chromatic[i] } else { 0u8 })
}

/// Writing the chromatic plane to RAM, complemented
pub open spec fn transfer_chromatic_steps(chromatic: Seq<u8>, mode: WriteMode) -> Seq<BusStep> {
    command_steps(command::WRITE_RAM_CHROMATIC, mode) + data_steps(inverted_plane(chromatic), mode)
}

/// Clearing the panel to white and refreshing it
pub open spec fn clear_steps(mode: WriteMode) -> Seq<BusStep> {
    command_steps(command::WRITE_RAM_BLACK, mode) + repeat(data_steps(seq![0xffu8], mode), BYTE_SIZE as nat)
        + command_steps(command::WRITE_RAM_CHROMATIC, mode) + repeat(
        data_steps(seq![0x00u8], mode),
        BYTE_SIZE as nat,
    ) + refresh_steps(mode)
}

/// Entering deep sleep
pub open spec fn release_steps(mode: WriteMode) -> Seq<BusStep> {
    command_steps(command::DEEP_SLEEP_MODE, mode) + data_steps(seq![0x01u8], mode) + seq![
        BusStep::DelayMs(200),
    ]
}

/// The state of the panel's controller as the driver knows it
#[derive(Copy, Clone, Debug, PartialEq, Eq, Structural)]
pub enum DriverState {
    /// Not initialized since the driver was created
    Reset,
    /// Initialized, showing what was last refreshed
    Idle,
    /// Planes written to RAM and not yet refreshed
    Transferring,
    /// In deep sleep until initialized again
    Sleeping,
}

/// An error of the driver's protocol
#[derive(Copy, Clone, Debug, PartialEq, Eq, Structural)]
pub enum DisplayError {
    /// The panel must be initialized first
    NotInitialized,
}

/// Whether the panel accepts data and refreshes in a state
pub open spec fn ready(state: DriverState) -> bool {
    state == DriverState::Idle || state == DriverState::Transferring
}

/// A driver for a Waveshare 1.54 inch B v2 electronic-ink panel
#[derive(Copy, Clone, Debug)]
pub struct Display {
    state: DriverState,
    mode: WriteMode,
}

impl Display {
    /// The controller's state
    pub closed spec fn state_spec(&self) -> DriverState {
        self.state
    }

    /// How byte transfers are split
    pub closed spec fn mode_spec(&self) -> WriteMode {
        self.mode
    }

    /// A driver's write mode can always carry bytes
    pub closed spec fn wf(&self) -> bool {
        valid_mode(self.mode)
    }

    /// Create a driver that writes all bytes of a transfer at once
    pub fn new() -> (r: Display)
        ensures
            r.wf(),
            r.state_spec() == DriverState::Reset,
            r.mode_spec() == WriteMode::Whole,
    {
        Display { state: DriverState::Reset, mode: WriteMode::Whole }
    }

    /// Create a driver that writes one byte per transfer
    pub fn new_with_individual_writes() -> (r: Display)
        ensures
            r.wf(),
            r.state_spec() == DriverState::Reset,
            r.mode_spec() == WriteMode::Chunked(1),
    {
        Display { state: DriverState::Reset, mode: WriteMode::Chunked(1) }
    }

    /// Create a driver that writes at most `max_transfer` bytes per transfer
    pub fn new_with_max_transfer(max_transfer: usize) -> (r: Display)
        requires
            max_transfer > 0,
        ensures
            r.wf(),
            r.state_spec() == DriverState::Reset,
            r.mode_spec() == WriteMode::Chunked(max_transfer),
    {
        Display { state: DriverState::Reset, mode: WriteMode::Chunked(max_transfer) }
    }

    /// The controller's state
    pub fn state(&self) -> (r: DriverState)
        ensures
            r == self.state_spec(),
    {
        self.state
    }

    fn hardware_reset(&self, ops: &mut Vec<BusOp>)
        ensures
            steps(final(ops)@) == steps(old(ops)@) + hardware_reset_steps(),
    {
        push_op(ops, BusOp::SetReset(true));
        push_op(ops, BusOp::DelayMs(10));
        push_op(ops, BusOp::SetReset(false));
        push_op(ops, BusOp::DelayMs(10));
        push_op(ops, BusOp::SetReset(true));
        push_op(ops, BusOp::DelayMs(200));
        assert(steps(ops@) =~= steps(old(ops)@) + hardware_reset_steps());
    }

    fn software_reset(&self, ops: &mut Vec<BusOp>)
        requires
            self.wf(),
        ensures
            steps(final(ops)@) == steps(old(ops)@) + software_reset_steps(self.mode_spec()),
    {
        push_op(ops, BusOp::WaitUntilIdle);
        push_command(ops, command::SOFTWARE_RESET, self.mode);
        assert(steps(ops@) =~= steps(old(ops)@) + software_reset_steps(self.mode));
    }

    fn set_driver_output_control(&self, ops: &mut Vec<BusOp>)
        requires
            self.wf(),
        ensures
            steps(final(ops)@) == steps(old(ops)@) + driver_output_control_steps(self.mode_spec()),
    {
        push_op(ops, BusOp::WaitUntilIdle);
        push_command(ops, command::DRIVER_OUTPUT_CONTROL, self.mode);
        let d: [u8; 3] = [0xc7, 0x00, 0x01];
        assert(d@ =~= seq![0xc7u8, 0x00u8, 0x01u8]);
        push_data(ops, d.as_slice(), self.mode);
        assert(steps(ops@) =~= steps(old(ops)@) + driver_output_control_steps(self.mode));
    }

    fn set_ram_size(&self, ops: &mut Vec<BusOp>, width: usize, height: usize)
        requires
            self.wf(),
            8 <= width <= 2048,
            1 <= height <= 65536,
        ensures
            steps(final(ops)@) == steps(old(ops)@) + ram_size_steps(
                width as nat,
                height as nat,
                self.mode_spec(),
            ),
    {
        push_command(ops, command::DATA_ENTRY_MODE, self.mode);
        let entry: [u8; 1] = [0x01];
        assert(entry@ =~= seq![0x01u8]);
        push_data(ops, entry.as_slice(), self.mode);

        let x_start: u8 = 0;
        let x_end: u8 = (width / 8 - 1) as u8;
        push_command(ops, command::SET_RAM_X_ADDRESS_START_END_POSITION, self.mode);
        let x_window: [u8; 2] = [x_start, x_end];
        assert(x_window@ =~= seq![0x00u8, (width / 8 - 1) as u8]);
        push_data(ops, x_window.as_slice(), self.mode);

        let y_start: u16 = (height - 1) as u16;
        let y_end: u16 = 0;
        let y_window: [u8; 4] = [
            (y_start % 256) as u8,
            (y_start / 256) as u8,
            (y_end % 256) as u8,
            (y_end / 256) as u8,
        ];
        push_command(ops, command::SET_RAM_Y_ADDRESS_START_END_POSITION, self.mode);
        assert(y_window@ =~= seq![
            (((height - 1) as nat) % 256) as u8,
            (((height - 1) as nat) / 256) as u8,
            0x00u8,
            0x00u8,
        ]);
        push_data(ops, y_window.as_slice(), self.mode);
        assert(steps(ops@) =~= steps(old(ops)@) + ram_size_steps(
            width as nat,
            height as nat,
            self.mode,
        ));
    }

    fn set_border_waveform_control(&self, ops: &mut Vec<BusOp>)
        requires
            self.wf(),
        ensures
            steps(final(ops)@) == steps(old(ops)@) + border_waveform_control_steps(self.mode_spec()),
    {
        push_command(ops, command::BORDER_WAVEFORM_CONTROL, self.mode);
        let d: [u8; 1] = [0x05];
        assert(d@ =~= seq![0x05u8]);
        push_data(ops, d.as_slice(), self.mode);
        assert(steps(ops@) =~= steps(old(ops)@) + border_waveform_control_steps(self.mode));
    }

    fn set_ram_address_counters(&self, ops: &mut Vec<BusOp>)
        requires
            self.wf(),
        ensures
            steps(final(ops)@) == steps(old(ops)@) + ram_address_counters_steps(self.mode_spec()),
    {
        push_command(ops, command::SET_RAM_X_ADDRESS_COUNTER, self.mode);
        let x: [u8; 1] = [0x00];
        assert(x@ =~= seq![0x00u8]);
        push_data(ops, x.as_slice(), self.mode);
        push_command(ops, command::SET_RAM_Y_ADDRESS_COUNTER, self.mode);
        let y_low: [u8; 1] = [0xc7];
        assert(y_low@ =~= seq![0xc7u8]);
        push_data(ops, y_low.as_slice(), self.mode);
        push_data(ops, x.as_slice(), self.mode);
        assert(steps(ops@) =~= steps(old(ops)@) + ram_address_counters_steps(self.mode));
    }

    /// Initialize the panel: reset it, configure output, RAM window, border
    /// and address counters, and wait until it is idle
    pub fn initialize(&mut self) -> (r: Vec<BusOp>)
        requires
            old(self).wf(),
        ensures
            final(self).wf(),
            final(self).mode_spec() == old(self).mode_spec(),
            final(self).state_spec() == DriverState::Idle,
            steps(r@) == initialize_steps(old(self).mode_spec()),
    {
        let mut ops: Vec<BusOp> = Vec::new();
        self.hardware_reset(&mut ops);
        self.software_reset(&mut ops);
        self.set_driver_output_control(&mut ops);
        self.set_ram_size(&mut ops, WIDTH, HEIGHT);
        self.set_border_waveform_control(&mut ops);
        self.set_ram_address_counters(&mut ops);
        push_op(&mut ops, BusOp::WaitUntilIdle);
        assert(steps(ops@) =~= initialize_steps(self.mode));
        self.state = DriverState::Idle;
        ops
    }

    fn refresh(&self, ops: &mut Vec<BusOp>)
        requires
            self.wf(),
        ensures
            steps(final(ops)@) == steps(old(ops)@) + refresh_steps(self.mode_spec()),
    {
        push_command(ops, command::DISPLAY_UPDATE_CONTROL_2, self.mode);
        let d: [u8; 1] = [0xf7];
        assert(d@ =~= seq![0xf7u8]);
        push_data(ops, d.as_slice(), self.mode);
        push_command(ops, command::MASTER_ACTIVATION, self.mode);
        push_op(ops, BusOp::WaitUntilIdle);
        assert(steps(ops@) =~= steps(old(ops)@) + refresh_steps(self.mode));
    }

    fn push_black(&self, ops: &mut Vec<BusOp>, black: &[u8])
        requires
            self.wf(),
        ensures
            steps(final(ops)@) == steps(old(ops)@) + transfer_black_steps(black@, self.mode_spec()),
    {
        push_command(ops, command::WRITE_RAM_BLACK, self.mode);
        push_data(ops, black, self.mode);
        assert(steps(ops@) =~= steps(old(ops)@) + transfer_black_steps(black@, self.mode));
    }

    fn push_chromatic(&self, ops: &mut Vec<BusOp>, chromatic: &[u8])
        requires
            self.wf(),
        ensures
            steps(final(ops)@) == steps(old(ops)@) + transfer_chromatic_steps(
                chromatic@,
                self.mode_spec(),
            ),
    {
        push_command(ops, command::WRITE_RAM_CHROMATIC, self.mode);
        let mut inverted: Vec<u8> = Vec::new();
        let mut i: usize = 0;
        while i < BYTE_SIZE
            invariant
                i <= BYTE_SIZE,
                inverted@ == inverted_plane(chromatic@).take(i as int),
            decreases BYTE_SIZE - i,
        {
            if i < chromatic.len() {
                inverted.push(!chromatic[i]);
            } else {
                inverted.push(0x00);
            }
            assert(inverted@ =~= inverted_plane(chromatic@).take(i + 1));
            i = i + 1;
        }
        assert(inverted@ =~= inverted_plane(chromatic@));
        push_data(ops, inverted.as_slice(), self.mode);
        assert(steps(ops@) =~= steps(old(ops)@) + transfer_chromatic_steps(chromatic@, self.mode));
    }

    /// Write the black plane to the panel's RAM
    pub fn transfer_black(&mut self, black: &[u8]) -> (r: Result<Vec<BusOp>, DisplayError>)
        requires
            old(self).wf(),
        ensures
            final(self).wf(),
            final(self).mode_spec() == old(self).mode_spec(),
            !ready(old(self).state_spec()) ==> r == Err::<Vec<BusOp>, DisplayError>(
                DisplayError::NotInitialized,
            ) && final(self).state_spec() == old(self).state_spec(),
            ready(old(self).state_spec()) ==> r is Ok && steps(r->Ok_0@) == transfer_black_steps(
                black@,
                old(self).mode_spec(),
            ) && final(self).state_spec() == DriverState::Transferring,
    {
        if !self.is_ready() {
            return Err(DisplayError::NotInitialized);
        }
        let mut ops: Vec<BusOp> = Vec::new();
        self.push_black(&mut ops, black);
        assert(steps(ops@) =~= transfer_black_steps(black@, self.mode));
        self.state = DriverState::Transferring;
        Ok(ops)
    }

    /// Write the chromatic plane to the panel's RAM; the controller stores
    /// it complemented
    pub fn transfer_chromatic(&mut self, chromatic: &[u8]) -> (r: Result<Vec<BusOp>, DisplayError>)
        requires
            old(self).wf(),
        ensures
            final(self).wf(),
            final(self).mode_spec() == old(self).mode_spec(),
            !ready(old(self).state_spec()) ==> r == Err::<Vec<BusOp>, DisplayError>(
                DisplayError::NotInitialized,
            ) && final(self).state_spec() == old(self).state_spec(),
            ready(old(self).state_spec()) ==> r is Ok && steps(r->Ok_0@) == transfer_chromatic_steps(
                chromatic@,
                old(self).mode_spec(),
            ) && final(self).state_spec() == DriverState::Transferring,
    {
        if !self.is_ready() {
            return Err(DisplayError::NotInitialized);
        }
        let mut ops: Vec<BusOp> = Vec::new();
        self.push_chromatic(&mut ops, chromatic);
        assert(steps(ops@) =~= transfer_chromatic_steps(chromatic@, self.mode));
        self.state = DriverState::Transferring;
        Ok(ops)
    }

    /// Write the planes that are given to the panel's RAM, then refresh it
    pub fn transfer_channels(&mut self, black: Option<&[u8]>, chromatic: Option<&[u8]>) -> (r:
        Result<Vec<BusOp>, DisplayError>)
        requires
            old(self).wf(),
        ensures
            final(self).wf(),
            final(self).mode_spec() == old(self).mode_spec(),
            !ready(old(self).state_spec()) ==> r == Err::<Vec<BusOp>, DisplayError>(
                DisplayError::NotInitialized,
            ) && final(self).state_spec() == old(self).state_spec(),
            ready(old(self).state_spec()) ==> r is Ok && final(self).state_spec() == DriverState::Idle
                && steps(r->Ok_0@) == (match black {
                Some(b) => transfer_black_steps(b@, old(self).mode_spec()),
                None => Seq::empty(),
            }) + (match chromatic {
                Some(c) => transfer_chromatic_steps(c@, old(self).mode_spec()),
                None => Seq::empty(),
            }) + refresh_steps(old(self).mode_spec()),
    {
        if !self.is_ready() {
            return Err(DisplayError::NotInitialized);
        }
        let mut ops: Vec<BusOp> = Vec::new();
        let ghost black_part = match black {
            Some(b) => transfer_black_steps(b@, self.mode),
            None => Seq::<BusStep>::empty(),
        };
        let ghost chromatic_part = match chromatic {
            Some(c) => transfer_chromatic_steps(c@, self.mode),
            None => Seq::<BusStep>::empty(),
        };
        if let Some(b) = black {
            self.push_black(&mut ops, b);
        }
        assert(steps(ops@) =~= black_part);
        if let Some(c) = chromatic {
            self.push_chromatic(&mut ops, c);
        }
        assert(steps(ops@) =~= black_part + chromatic_part);
        self.refresh(&mut ops);
        self.state = DriverState::Idle;
        Ok(ops)
    }

    /// Write both planes of a buffer to the panel's RAM, then refresh it
    pub fn draw_buffer(&mut self, buffer: &Buffer<WIDTH, HEIGHT, BYTE_SIZE>) -> (r: Result<
        Vec<BusOp>,
        DisplayError,
    >)
        requires
            old(self).wf(),
        ensures
            final(self).wf(),
            final(self).mode_spec() == old(self).mode_spec(),
            !ready(old(self).state_spec()) ==> r == Err::<Vec<BusOp>, DisplayError>(
                DisplayError::NotInitialized,
            ) && final(self).state_spec() == old(self).state_spec(),
            ready(old(self).state_spec()) ==> r is Ok && final(self).state_spec() == DriverState::Idle
                && steps(r->Ok_0@) == transfer_black_steps(buffer.black_plane(), old(self).mode_spec())
                + transfer_chromatic_steps(buffer.chromatic_plane(), old(self).mode_spec())
                + refresh_steps(old(self).mode_spec()),
    {
        self.transfer_channels(Some(buffer.black_buffer()), Some(buffer.chromatic_buffer()))
    }

    /// Clear the panel to white and refresh it
    pub fn clear(&mut self) -> (r: Result<Vec<BusOp>, DisplayError>)
        requires
            old(self).wf(),
        ensures
            final(self).wf(),
            final(self).mode_spec() == old(self).mode_spec(),
            !ready(old(self).state_spec()) ==> r == Err::<Vec<BusOp>, DisplayError>(
                DisplayError::NotInitialized,
            ) && final(self).state_spec() == old(self).state_spec(),
            ready(old(self).state_spec()) ==> r is Ok && final(self).state_spec() == DriverState::Idle
                && steps(r->Ok_0@) == clear_steps(old(self).mode_spec()),
    {
        if !self.is_ready() {
            return Err(DisplayError::NotInitialized);
        }
        let mut ops: Vec<BusOp> = Vec::new();
        push_command(&mut ops, command::WRITE_RAM_BLACK, self.mode);
        let white: [u8; 1] = [0xff];
        assert(white@ =~= seq![0xffu8]);
        self.push_repeated(&mut ops, white.as_slice(), BYTE_SIZE);
        push_command(&mut ops, command::WRITE_RAM_CHROMATIC, self.mode);
        let none: [u8; 1] = [0x00];
        assert(none@ =~= seq![0x00u8]);
        self.push_repeated(&mut ops, none.as_slice(), BYTE_SIZE);
        self.refresh(&mut ops);
        assert(steps(ops@) =~= clear_steps(self.mode));
        self.state = DriverState::Idle;
        Ok(ops)
    }

    fn push_repeated(&self, ops: &mut Vec<BusOp>, data: &[u8], count: usize)
        requires
            self.wf(),
        ensures
            steps(final(ops)@) == steps(old(ops)@) + repeat(data_steps(data@, self.mode_spec()), count as nat),
    {
        let mut k: usize = 0;
        assert(steps(ops@) =~= steps(old(ops)@) + repeat(data_steps(data@, self.mode), 0));
        while k < count
            invariant
                self.wf(),
                k <= count,
                steps(ops@) == steps(old(ops)@) + repeat(data_steps(data@, self.mode), k as nat),
            decreases count - k,
        {
            push_data(ops, data, self.mode);
            assert(steps(ops@) =~= steps(old(ops)@) + repeat(data_steps(data@, self.mode), (k + 1) as nat));
            k = k + 1;
        }
    }

    /// Put the panel into deep sleep
    pub fn release(&mut self) -> (r: Vec<BusOp>)
        requires
            old(self).wf(),
        ensures
            final(self).wf(),
            final(self).mode_spec() == old(self).mode_spec(),
            final(self).state_spec() == DriverState::Sleeping,
            steps(r@) == release_steps(old(self).mode_spec()),
    {
        let mut ops: Vec<BusOp> = Vec::new();
        push_command(&mut ops, command::DEEP_SLEEP_MODE, self.mode);
        let d: [u8; 1] = [0x01];
        assert(d@ =~= seq![0x01u8]);
        push_data(&mut ops, d.as_slice(), self.mode);
        push_op(&mut ops, BusOp::DelayMs(200));
        assert(steps(ops@) =~= release_steps(self.mode));
        self.state = DriverState::Sleeping;
        ops
    }

    fn is_ready(&self) -> (r: bool)
        ensures
            r == ready(self.state_spec()),
    {
        self.state == DriverState::Idle || self.state == DriverState::Transferring
    }
}

} // verus!
