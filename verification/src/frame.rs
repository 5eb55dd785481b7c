//! The host link frame: a head byte, a run of commands, and a tail byte.
//! Each command starts with a type/sequence byte whose high nibble names
//! its kind and a length byte; the device answers the frame with one block
//! per command, in order, between its own head and tail bytes.

use vstd::prelude::*;
use crate::canopen::{
    canopen_data_process, canopen_modes, canopen_reply, canopen_request_ok, object_index,
    MotorModes, GET_RUNNING_MODE, NODE_COUNT, SET_CONTROL_MODE,
};

verus! {

/// First byte of every frame.
pub const FRAME_HEAD: u8 = 0xfa;

/// Last byte of every frame; in a request, a command position holding it
/// ends the run of commands.
pub const FRAME_TAIL: u8 = 0xff;

/// Status byte of a block: the command succeeded.
pub const STATUS_OK: u8 = 0x00;

/// Command kind (high nibble of the type/sequence byte): test, answered
/// with the protocol version.
pub const KIND_TEST: u8 = 0x00;
/// Command kind: system settings (skipped).
pub const KIND_SYSTEM: u8 = 0x01;
/// Command kind: a CAN frame to forward.
pub const KIND_CAN: u8 = 0x02;
/// Command kind: GPIO pins to read or write.
pub const KIND_IO: u8 = 0x03;
/// Command kind: a serial message to forward.
pub const KIND_SERIAL: u8 = 0x04;
/// Command kind: motor settings (skipped).
pub const KIND_MOTOR: u8 = 0x05;
/// Command kind: battery settings (skipped).
pub const KIND_BATTERY: u8 = 0x06;
/// Command kind: a flash access (skipped).
pub const KIND_FLASH: u8 = 0x07;
/// Command kind: message group settings (skipped).
pub const KIND_MSG_GROUP: u8 = 0x08;
/// Command kind: command manager settings (skipped).
pub const KIND_CMD_MANAGER: u8 = 0x09;
/// Command kind: safety state exchange.
pub const KIND_SAFETY: u8 = 0x0a;
/// Command kind: message group response (skipped).
pub const KIND_MSG_GROUP_RESPONSE: u8 = 0x0b;
/// Command kind: read the frame counters.
pub const KIND_READ_COUNT: u8 = 0x0c;
/// Command kind: charging station message (skipped).
pub const KIND_CHARGING: u8 = 0x0d;

/// Lowest CAN identifier of an SDO request (node 0).
pub const SDO_REQUEST_BASE: u16 = 0x600;

/// Lowest CAN identifier of a heartbeat.
pub const HEARTBEAT_BASE: u16 = 0x700;

/// Distance between an SDO request identifier and the identifier of the
/// node's SDO response.
pub const SDO_RESPONSE_OFFSET: u16 = 0x80;

/// Serial payload byte that addresses the inertial measurement unit.
pub const IMU_ADDRESS: u8 = 0x77;

/// The kind of a command, from its type/sequence byte.
pub open spec fn command_kind(type_seq: u8) -> u8 {
    type_seq / 16
}

/// Number of data bytes of a forwarded CAN frame (command at `p`).
pub open spec fn can_dlc(data: Seq<u8>, p: int) -> int {
    (data[p + 2] % 16) as int
}

/// The 11-bit identifier of a forwarded CAN frame (command at `p`).
pub open spec fn can_identifier(data: Seq<u8>, p: int) -> int {
    (data[p + 4] * 256 + data[p + 5]) % 2048
}

/// The data bytes of a forwarded CAN frame (command at `p`).
pub open spec fn can_payload(data: Seq<u8>, p: int) -> Seq<u8> {
    data.subrange(p + 6, p + 6 + can_dlc(data, p))
}

/// Whether a CAN identifier is an SDO request to some node.
pub open spec fn is_sdo_request(id: int) -> bool {
    SDO_REQUEST_BASE <= id < HEARTBEAT_BASE
}

/// Whether a CAN identifier is a receive PDO of some node.
pub open spec fn is_pdo(id: int) -> bool {
    0x80 <= id < 0x100
}

/// Number of payload bytes of a forwarded serial message (command at `p`).
pub open spec fn serial_len(data: Seq<u8>, p: int) -> int {
    (data[p + 2] % 64) as int
}

/// Whether a forwarded serial message asks both to wait for and to send
/// the peer's answer (the two high bits of its flags byte).
pub open spec fn serial_wants_answer(data: Seq<u8>, p: int) -> bool {
    data[p + 2] >= 0xc0
}

/// Position just past the command that starts at `p`: the fixed part of
/// its kind, plus the variable part that its length field gives.
pub open spec fn command_end(data: Seq<u8>, p: int) -> int {
    let kind = command_kind(data[p]);
    if kind == KIND_SYSTEM {
        p + 14
    } else if kind == KIND_CAN {
        p + 6 + can_dlc(data, p)
    } else if kind == KIND_IO {
        p + 12
    } else if kind == KIND_SERIAL {
        p + 6 + serial_len(data, p)
    } else if kind == KIND_MOTOR {
        p + 8
    } else if kind == KIND_BATTERY || kind == KIND_MSG_GROUP {
        p + 6
    } else if kind == KIND_FLASH {
        p + 8 + data[p + 7]
    } else if kind == KIND_CMD_MANAGER {
        p + 9 + data[p + 8]
    } else if kind == KIND_SAFETY {
        p + 11
    } else if kind == KIND_CHARGING {
        p + 4 + data[p + 3]
    } else {
        p + 2
    }
}

/// A command the device can serve: a forwarded SDO request must be one
/// that the addressed node answers.
pub open spec fn command_ok(data: Seq<u8>, p: int) -> bool {
    command_kind(data[p]) == KIND_CAN && is_sdo_request(can_identifier(data, p))
        ==> canopen_request_ok(can_identifier(data, p) - SDO_REQUEST_BASE, can_payload(data, p))
}

/// The protocol version that a test command reports.
pub open spec fn version_reply() -> Seq<u8> {
    seq![0x11u8, 0x22u8, 0x33u8, 0x44u8]
}

/// The answer of the inertial measurement unit to a serial request.
pub open spec fn imu_answer() -> Seq<u8> {
    seq![0x77u8, 0x0du8, 0x00u8, 0x84u8, 0x00u8, 0x02u8, 0x01u8,
        0x10u8, 0x00u8, 0x51u8, 0x00u8, 0x00u8, 0x00u8, 0xf5u8]
}

/// The answer of the code reader to a serial request.
pub open spec fn code_reader_answer() -> Seq<u8> {
    seq![0x00u8, 0x44u8, 0x00u8, 0x00u8, 0x00u8, 0x04u8, 0x7fu8,
        0x5cu8, 0x00u8, 0x00u8, 0x00u8, 0x59u8, 0x00u8, 0x00u8,
        0x00u8, 0x07u8, 0x77u8, 0x54u8, 0x00u8, 0x00u8, 0x4au8]
}

/// The reply to a forwarded CAN frame: nothing for a heartbeat; for an SDO
/// request, the node's SDO response under the response identifier; for a
/// receive PDO, eight bytes of 1 under the identifier with bit 9 set; for
/// identifier 0, an empty frame; nothing otherwise. A reply that is not
/// empty starts with its data length, the controller and the identifier
/// (high byte first).
pub open spec fn can_reply(data: Seq<u8>, p: int, modes: Seq<i8>) -> Seq<u8> {
    let id = can_identifier(data, p);
    let controller = data[p + 3];
    if HEARTBEAT_BASE <= id {
        seq![]
    } else if is_sdo_request(id) {
        let rid = id - SDO_RESPONSE_OFFSET;
        seq![can_dlc(data, p) as u8, controller, (rid / 256) as u8, (rid % 256) as u8]
            + canopen_reply(id - SDO_REQUEST_BASE, can_payload(data, p), modes)
    } else if is_pdo(id) {
        let rid = id + 0x200;
        seq![8u8, controller, (rid / 256) as u8, (rid % 256) as u8] + Seq::new(8, |i: int| 1u8)
    } else if id == 0 {
        seq![0u8, controller, 0u8, 0u8]
    } else {
        seq![]
    }
}

/// The reply to an IO command: the group, then the pin mask twice.
pub open spec fn io_reply(data: Seq<u8>, p: int) -> Seq<u8> {
    let mask = data.subrange(p + 8, p + 12);
    seq![data[p + 2]] + mask + mask
}

/// The reply to a forwarded serial message: a message to the inertial
/// measurement unit, or an empty one (to the code reader), is answered
/// with the peer's answer when the answer was asked for, and with an empty
/// answer otherwise; any other message gets no reply.
pub open spec fn serial_reply(data: Seq<u8>, p: int) -> Seq<u8> {
    let controller = data[p + 3];
    if serial_len(data, p) > 0 {
        if data[p + 6] == IMU_ADDRESS {
            if serial_wants_answer(data, p) {
                seq![14u8, controller] + imu_answer()
            } else {
                seq![0u8, controller]
            }
        } else {
            seq![]
        }
    } else if serial_wants_answer(data, p) {
        seq![21u8, controller] + code_reader_answer()
    } else {
        seq![0u8, controller]
    }
}

/// The reply payload to the command that starts at `p`.
pub open spec fn command_reply(data: Seq<u8>, p: int, modes: Seq<i8>) -> Seq<u8> {
    let kind = command_kind(data[p]);
    if kind == KIND_TEST {
        version_reply()
    } else if kind == KIND_CAN {
        can_reply(data, p, modes)
    } else if kind == KIND_IO {
        io_reply(data, p)
    } else if kind == KIND_SERIAL {
        serial_reply(data, p)
    } else if kind == KIND_SAFETY {
        Seq::new(17, |i: int| 0u8)
    } else if kind == KIND_READ_COUNT {
        Seq::new(8, |i: int| 0u8) + Seq::new(8, |i: int| 0xffu8)
    } else {
        seq![]
    }
}

/// The modes after the command at `p`: only a forwarded SDO request can
/// change them.
pub open spec fn command_modes(data: Seq<u8>, p: int, modes: Seq<i8>) -> Seq<i8> {
    let id = can_identifier(data, p);
    if command_kind(data[p]) == KIND_CAN && is_sdo_request(id) {
        canopen_modes(id - SDO_REQUEST_BASE, can_payload(data, p), modes)
    } else {
        modes
    }
}

/// Whether the command run that starts at `p` can be served: every command
/// position lies inside the frame, every command can be served and ends
/// inside the frame, and the run ends with the tail byte.
pub open spec fn frame_ok_from(data: Seq<u8>, p: int) -> bool
    decreases data.len() - p,
{
    if 0 <= p < data.len() {
        if data[p] == FRAME_TAIL {
            true
        } else {
            command_ok(data, p) && command_end(data, p) < data.len() && frame_ok_from(
                data,
                command_end(data, p),
            )
        }
    } else {
        false
    }
}

/// Whether the command at `p` is followed by another position of the run
/// (it is a command, and it ends inside the frame).
pub open spec fn continues_at(data: Seq<u8>, p: int) -> bool {
    0 <= p < data.len() && data[p] != FRAME_TAIL && command_end(data, p) < data.len()
}

/// The block answering one command: its type/sequence byte, the payload
/// length, the status, then the payload.
pub open spec fn command_block(data: Seq<u8>, p: int, modes: Seq<i8>) -> Seq<u8> {
    let reply = command_reply(data, p, modes);
    seq![data[p], reply.len() as u8, STATUS_OK] + reply
}

/// The blocks answering the run of commands that starts at `p`, in order.
pub open spec fn blocks_from(data: Seq<u8>, p: int, modes: Seq<i8>) -> Seq<u8>
    decreases data.len() - p,
{
    if continues_at(data, p) {
        command_block(data, p, modes) + blocks_from(
            data,
            command_end(data, p),
            command_modes(data, p, modes),
        )
    } else {
        seq![]
    }
}

/// The modes after the run of commands that starts at `p`.
pub open spec fn modes_from(data: Seq<u8>, p: int, modes: Seq<i8>) -> Seq<i8>
    decreases data.len() - p,
{
    if continues_at(data, p) {
        modes_from(data, command_end(data, p), command_modes(data, p, modes))
    } else {
        modes
    }
}

/// A request frame the device can answer: the run of commands starts right
/// after the head byte.
pub open spec fn passive_well_formed(data: Seq<u8>) -> bool {
    frame_ok_from(data, 1)
}

/// The answer to a request frame: the head byte, one block per command,
/// and the tail byte.
pub open spec fn passive_response(data: Seq<u8>, modes: Seq<i8>) -> Seq<u8> {
    seq![FRAME_HEAD] + blocks_from(data, 1, modes) + seq![FRAME_TAIL]
}

/// Whether the answer to a request frame is sent: it holds a command.
pub open spec fn passive_sends(data: Seq<u8>) -> bool {
    data[1] != FRAME_TAIL
}

/// The length of the command that starts at `p`, if it ends inside the
/// frame (`None` if it runs past the end).
pub fn command_span(data: &Vec<u8>, p: usize) -> (r: Option<usize>)
    requires
        p < data.len(),
    ensures
        match r {
            Some(off) => p + off == command_end(data@, p as int) && command_end(data@, p as int) < data.len(),
            None => command_end(data@, p as int) >= data.len(),
        },
{
    let room = data.len() - p;
    let kind = data[p] / 16;
    let off: usize = if kind == KIND_SYSTEM {
        14
    } else if kind == KIND_CAN {
        if room <= 2 {
            return None;
        }
        6 + (data[p + 2] % 16) as usize
    } else if kind == KIND_IO {
        12
    } else if kind == KIND_SERIAL {
        if room <= 2 {
            return None;
        }
        6 + (data[p + 2] % 64) as usize
    } else if kind == KIND_MOTOR {
        8
    } else if kind == KIND_BATTERY || kind == KIND_MSG_GROUP {
        6
    } else if kind == KIND_FLASH {
        if room <= 7 {
            return None;
        }
        8 + data[p + 7] as usize
    } else if kind == KIND_CMD_MANAGER {
        if room <= 8 {
            return None;
        }
        9 + data[p + 8] as usize
    } else if kind == KIND_SAFETY {
        11
    } else if kind == KIND_CHARGING {
        if room <= 3 {
            return None;
        }
        4 + data[p + 3] as usize
    } else {
        2
    };
    if off < room {
        Some(off)
    } else {
        None
    }
}

/// Whether the device can serve the command that starts at `p`.
pub fn command_is_serviceable(data: &Vec<u8>, p: usize) -> (ok: bool)
    requires
        p < data.len(),
        command_end(data@, p as int) < data.len(),
    ensures
        ok == command_ok(data@, p as int),
{
    if data[p] / 16 != KIND_CAN {
        return true;
    }
    let id: u16 = ((data[p + 4] as u16) * 256 + (data[p + 5] as u16)) % 2048;
    if id < SDO_REQUEST_BASE || id >= HEARTBEAT_BASE {
        return true;
    }
    let dlc: usize = (data[p + 2] % 16) as usize;
    let ghost payload = can_payload(data@, p as int);
    if dlc < 4 {
        return false;
    }
    let index: u16 = (data[p + 8] as u16) * 256 + (data[p + 7] as u16);
    assert(index == object_index(payload));
    let node: u16 = id - SDO_REQUEST_BASE;
    if index == SET_CONTROL_MODE && dlc < 5 {
        return false;
    }
    if (index == SET_CONTROL_MODE || index == GET_RUNNING_MODE) && node as usize >= NODE_COUNT {
        return false;
    }
    true
}

/// Appends `n` copies of `byte` to `v`.
fn push_repeated(v: &mut Vec<u8>, byte: u8, n: usize)
    ensures
        final(v)@ == old(v)@ + Seq::new(n as nat, |i: int| byte),
{
    let mut i: usize = 0;
    while i < n
        invariant
            i <= n,
            v@ == old(v)@ + Seq::new(i as nat, |k: int| byte),
        decreases n - i,
    {
        v.push(byte);
        i = i + 1;
        assert(v@ =~= old(v)@ + Seq::new(i as nat, |k: int| byte));
    }
}

/// The data bytes of the CAN frame forwarded by the command at `p`.
fn copy_can_payload(data: &Vec<u8>, p: usize) -> (payload: Vec<u8>)
    requires
        p < data.len(),
        command_kind(data@[p as int]) == KIND_CAN,
        command_end(data@, p as int) < data.len(),
    ensures
        payload@ == can_payload(data@, p as int),
{
    let dlc: usize = (data[p + 2] % 16) as usize;
    let mut payload: Vec<u8> = Vec::new();
    let mut i: usize = 0;
    while i < dlc
        invariant
            i <= dlc,
            dlc == can_dlc(data@, p as int),
            p + 6 + dlc < data.len(),
            payload@ == data@.subrange(p + 6, p + 6 + i),
        decreases dlc - i,
    {
        payload.push(data[p + 6 + i]);
        i = i + 1;
        assert(payload@ =~= data@.subrange(p + 6, p + 6 + i));
    }
    payload
}

/// Serves a forwarded CAN frame (command at `p`).
fn can_redirect(data: &Vec<u8>, p: usize, modes: &mut MotorModes) -> (reply: Vec<u8>)
    requires
        old(modes).wf(),
        p < data.len(),
        command_kind(data@[p as int]) == KIND_CAN,
        command_ok(data@, p as int),
        command_end(data@, p as int) < data.len(),
    ensures
        final(modes).wf(),
        reply@ == can_reply(data@, p as int, old(modes)@),
        final(modes)@ == command_modes(data@, p as int, old(modes)@),
{
    let dlc: u8 = data[p + 2] % 16;
    let controller_id = data[p + 3];
    let can_id: u16 = ((data[p + 4] as u16) * 256 + (data[p + 5] as u16)) % 2048;
    let can_data = copy_can_payload(data, p);
    let mut ret_data: Vec<u8> = Vec::new();
    if can_id >= HEARTBEAT_BASE {
    } else if can_id >= SDO_REQUEST_BASE {
        let ret_can_id: u16 = can_id - SDO_RESPONSE_OFFSET;
        ret_data.push(dlc);
        ret_data.push(controller_id);
        ret_data.push((ret_can_id / 256) as u8);
        ret_data.push((ret_can_id % 256) as u8);
        let mut canopen_data = canopen_data_process(can_id - SDO_REQUEST_BASE, can_data, modes);
        ret_data.append(&mut canopen_data);
    } else if can_id >= 0x80 && can_id < 0x100 {
        let ret_can_id: u16 = can_id + 0x200;
        ret_data.push(8);
        ret_data.push(controller_id);
        ret_data.push((ret_can_id / 256) as u8);
        ret_data.push((ret_can_id % 256) as u8);
        push_repeated(&mut ret_data, 1, 8);
    } else if can_id == 0 {
        ret_data.push(0);
        ret_data.push(controller_id);
        ret_data.push(0);
        ret_data.push(0);
    }
    assert(ret_data@ =~= can_reply(data@, p as int, old(modes)@));
    ret_data
}

/// Serves an IO command (at `p`).
fn io_redirect(data: &Vec<u8>, p: usize) -> (reply: Vec<u8>)
    requires
        p + 12 < data.len(),
    ensures
        reply@ == io_reply(data@, p as int),
{
    let mut ret_data: Vec<u8> = Vec::new();
    ret_data.push(data[p + 2]);
    ret_data.push(data[p + 8]);
    ret_data.push(data[p + 9]);
    ret_data.push(data[p + 10]);
    ret_data.push(data[p + 11]);
    ret_data.push(data[p + 8]);
    ret_data.push(data[p + 9]);
    ret_data.push(data[p + 10]);
    ret_data.push(data[p + 11]);
    assert(ret_data@ =~= io_reply(data@, p as int));
    ret_data
}

/// Appends the answer of the inertial measurement unit.
fn push_imu_answer(v: &mut Vec<u8>)
    ensures
        final(v)@ == old(v)@ + imu_answer(),
{
    v.push(0x77); v.push(0x0d); v.push(0x00); v.push(0x84); v.push(0x00); v.push(0x02); v.push(0x01);
    v.push(0x10); v.push(0x00); v.push(0x51); v.push(0x00); v.push(0x00); v.push(0x00); v.push(0xf5);
    assert(v@ =~= old(v)@ + imu_answer());
}

/// Appends the answer of the code reader.
fn push_code_reader_answer(v: &mut Vec<u8>)
    ensures
        final(v)@ == old(v)@ + code_reader_answer(),
{
    v.push(0x00); v.push(0x44); v.push(0x00); v.push(0x00); v.push(0x00); v.push(0x04); v.push(0x7f);
    v.push(0x5c); v.push(0x00); v.push(0x00); v.push(0x00); v.push(0x59); v.push(0x00); v.push(0x00);
    v.push(0x00); v.push(0x07); v.push(0x77); v.push(0x54); v.push(0x00); v.push(0x00); v.push(0x4a);
    assert(v@ =~= old(v)@ + code_reader_answer());
}

/// Serves a forwarded serial message (command at `p`).
fn serial_redirect(data: &Vec<u8>, p: usize) -> (reply: Vec<u8>)
    requires
        p < data.len(),
        command_kind(data@[p as int]) == KIND_SERIAL,
        command_end(data@, p as int) < data.len(),
    ensures
        reply@ == serial_reply(data@, p as int),
{
    let flags = data[p + 2];
    let wants_answer = flags >= 0xc0;
    let data_len = flags % 64;
    let controller_id = data[p + 3];
    let mut ret_data: Vec<u8> = Vec::new();
    if data_len > 0 {
        if data[p + 6] == IMU_ADDRESS {
            if wants_answer {
                ret_data.push(14);
                ret_data.push(controller_id);
                push_imu_answer(&mut ret_data);
            } else {
                ret_data.push(0);
                ret_data.push(controller_id);
            }
        }
    } else if wants_answer {
        ret_data.push(21);
        ret_data.push(controller_id);
        push_code_reader_answer(&mut ret_data);
    } else {
        ret_data.push(0);
        ret_data.push(controller_id);
    }
    assert(ret_data@ =~= serial_reply(data@, p as int));
    ret_data
}

/// Serves the command that starts at `p`: returns its reply payload and
/// records in `modes` what it changed.
fn process_command(data: &Vec<u8>, p: usize, modes: &mut MotorModes) -> (reply: Vec<u8>)
    requires
        old(modes).wf(),
        p < data.len(),
        command_ok(data@, p as int),
        command_end(data@, p as int) < data.len(),
    ensures
        final(modes).wf(),
        reply@ == command_reply(data@, p as int, old(modes)@),
        final(modes)@ == command_modes(data@, p as int, old(modes)@),
{
    let kind = data[p] / 16;
    let mut ret_data: Vec<u8> = Vec::new();
    if kind == KIND_TEST {
        ret_data.push(0x11);
        ret_data.push(0x22);
        ret_data.push(0x33);
        ret_data.push(0x44);
        assert(ret_data@ =~= version_reply());
    } else if kind == KIND_CAN {
        ret_data = can_redirect(data, p, modes);
    } else if kind == KIND_IO {
        ret_data = io_redirect(data, p);
    } else if kind == KIND_SERIAL {
        ret_data = serial_redirect(data, p);
    } else if kind == KIND_SAFETY {
        push_repeated(&mut ret_data, 0, 17);
        assert(ret_data@ =~= Seq::new(17, |i: int| 0u8));
    } else if kind == KIND_READ_COUNT {
        push_repeated(&mut ret_data, 0, 8);
        push_repeated(&mut ret_data, 0xff, 8);
        assert(ret_data@ =~= Seq::new(8, |i: int| 0u8) + Seq::new(8, |i: int| 0xffu8));
    }
    ret_data
}

/// Answers the request frame `recv_data`: returns whether the answer is to
/// be sent (the frame holds a command) and the answer, a head byte, one
/// block per command and a tail byte; `modes` records the operating modes
/// that the frame's SDO requests wrote.
pub fn passive_data_process(recv_data: Vec<u8>, modes: &mut MotorModes) -> (r: (bool, Vec<u8>))
    requires
        old(modes).wf(),
        passive_well_formed(recv_data@),
    ensures
        final(modes).wf(),
        r.0 == passive_sends(recv_data@),
        r.1@ == passive_response(recv_data@, old(modes)@),
        final(modes)@ == modes_from(recv_data@, 1, old(modes)@),
        r.1@[0] == FRAME_HEAD,
        r.1@.last() == FRAME_TAIL,
{
    let ghost data = recv_data@;
    let ghost modes0 = old(modes)@;
    let mut ret = false;
    let mut resp: Vec<u8> = Vec::new();
    resp.push(FRAME_HEAD);
    let mut index: usize = 1;
    while recv_data[index] != FRAME_TAIL
        invariant
            recv_data@ == data,
            1 <= index < data.len(),
            frame_ok_from(data, index as int),
            modes.wf(),
            resp@ + blocks_from(data, index as int, modes@) == seq![FRAME_HEAD] + blocks_from(data, 1, modes0),
            modes_from(data, index as int, modes@) == modes_from(data, 1, modes0),
            ret == (index > 1),
            index > 1 ==> data[1] != FRAME_TAIL,
        decreases data.len() - index,
    {
        ret = true;
        let type_seq = recv_data[index];
        let ghost before = modes@;
        let ghost old_resp = resp@;
        let ghost rest = blocks_from(data, command_end(data, index as int), command_modes(data, index as int, before));
        let mut ret_data = process_command(&recv_data, index, modes);
        let end = index + command_span(&recv_data, index).unwrap();
        resp.push(type_seq);
        resp.push(ret_data.len() as u8);
        resp.push(STATUS_OK);
        resp.append(&mut ret_data);
        assert(blocks_from(data, index as int, before) == command_block(data, index as int, before) + rest);
        assert(resp@ + rest =~= old_resp + command_block(data, index as int, before) + rest);
        index = end;
    }
    resp.push(FRAME_TAIL);
    assert(blocks_from(data, index as int, modes@) == Seq::<u8>::empty());
    assert(resp@ =~= passive_response(data, modes0));
    (ret, resp)
}

/// Whether the device can answer the request frame `data` (the condition
/// under which `passive_data_process` may be called).
pub fn passive_frame_is_well_formed(data: &Vec<u8>) -> (ok: bool)
    ensures
        ok == passive_well_formed(data@),
{
    let mut p: usize = 1;
    loop
        invariant
            1 <= p,
            frame_ok_from(data@, p as int) == frame_ok_from(data@, 1),
        decreases data.len() - p,
    {
        if p >= data.len() {
            return false;
        }
        if data[p] == FRAME_TAIL {
            return true;
        }
        match command_span(data, p) {
            None => {
                return false;
            },
            Some(off) => {
                if !command_is_serviceable(data, p) {
                    return false;
                }
                p = p + off;
            },
        }
    }
}

/// Answer of the active mode: always sent, and empty.
pub fn active_data_process() -> (r: (bool, Vec<u8>))
    ensures
        r.0,
        r.1@ == Seq::<u8>::empty(),
{
    let ret = true;
    let recv_data: Vec<u8> = Vec::new();
    (ret, recv_data)
}

/// Whether the device has something to send on its own while the link is
/// idle: it never has.
pub fn active_mode_proc() -> (r: bool)
    ensures
        !r,
{
    false
}

/// The payload of every reply is shorter than 256 bytes, so the length
/// byte of each block is the exact length of its payload.
pub proof fn lemma_block_length_exact(data: Seq<u8>, p: int, modes: Seq<i8>)
    requires
        0 <= p < data.len(),
        command_ok(data, p),
        command_end(data, p) < data.len(),
    ensures
        command_reply(data, p, modes).len() <= 23,
        command_block(data, p, modes)[0] == data[p],
        command_block(data, p, modes)[1] == command_reply(data, p, modes).len(),
        command_block(data, p, modes)[2] == STATUS_OK,
        command_block(data, p, modes).subrange(3, command_block(data, p, modes).len() as int)
            == command_reply(data, p, modes),
{
    let reply = command_reply(data, p, modes);
    assert(reply.len() <= 23);
    assert(command_block(data, p, modes).subrange(3, command_block(data, p, modes).len() as int) =~= reply);
}

/// The reply to a forwarded SDO request is the node's SDO response under
/// the response identifier, which lies `SDO_RESPONSE_OFFSET` below the
/// request's identifier (request 0x600 + n, response 0x580 + n).
pub proof fn lemma_sdo_response_identifier(data: Seq<u8>, p: int, modes: Seq<i8>)
    requires
        0 <= p < data.len(),
        command_kind(data[p]) == KIND_CAN,
        is_sdo_request(can_identifier(data, p)),
        command_ok(data, p),
        command_end(data, p) < data.len(),
    ensures
        ({
            let r = can_reply(data, p, modes);
            let id = can_identifier(data, p);
            &&& r[0] == can_dlc(data, p)
            &&& r[1] == data[p + 3]
            &&& r[2] * 256 + r[3] == id - SDO_RESPONSE_OFFSET
            &&& r.subrange(4, r.len() as int) == canopen_reply(id - SDO_REQUEST_BASE, can_payload(data, p), modes)
        }),
{
    let r = can_reply(data, p, modes);
    let id = can_identifier(data, p);
    assert(r.subrange(4, r.len() as int) =~= canopen_reply(id - SDO_REQUEST_BASE, can_payload(data, p), modes));
}

/// A frame whose single command is the forwarded SDO request to node
/// `node`, for the object `index`.
pub open spec fn is_single_sdo_frame(frame: Seq<u8>, node: int, index: u16) -> bool {
    &&& passive_well_formed(frame)
    &&& frame[1] != FRAME_TAIL
    &&& command_kind(frame[1]) == KIND_CAN
    &&& is_sdo_request(can_identifier(frame, 1))
    &&& can_identifier(frame, 1) == SDO_REQUEST_BASE + node
    &&& object_index(can_payload(frame, 1)) == index
    &&& frame[command_end(frame, 1)] == FRAME_TAIL
}

/// Across frames, a write of a node's mode is what a later read of that
/// node's running mode answers: after a frame that writes the mode of node
/// `node`, the answer to a frame that reads it back carries the written
/// byte as the SDO response's first data byte (byte 12 of the answer).
pub proof fn lemma_frame_mode_write_then_read(node: int, write: Seq<u8>, read: Seq<u8>, modes: Seq<i8>)
    requires
        modes.len() == NODE_COUNT,
        is_single_sdo_frame(write, node, SET_CONTROL_MODE),
        is_single_sdo_frame(read, node, GET_RUNNING_MODE),
    ensures
        modes_from(write, 1, modes) == canopen_modes(node, can_payload(write, 1), modes),
        passive_response(read, modes_from(write, 1, modes))[12] == can_payload(write, 1)[4],
        passive_response(read, modes_from(write, 1, modes)).len() == 17,
{
    let wend = command_end(write, 1);
    assert(frame_ok_from(write, 1));
    assert(command_ok(write, 1));
    assert(frame_ok_from(read, 1));
    assert(command_ok(read, 1));
    assert(continues_at(write, 1));
    assert(!continues_at(write, wend));
    assert(modes_from(write, wend, command_modes(write, 1, modes)) == command_modes(write, 1, modes));
    let after = modes_from(write, 1, modes);
    let rend = command_end(read, 1);
    assert(!continues_at(read, rend));
    assert(blocks_from(read, rend, command_modes(read, 1, after)) == Seq::<u8>::empty());
    let get = can_payload(read, 1);
    crate::canopen::lemma_mode_write_then_read(node, can_payload(write, 1), get, modes);
    let resp = passive_response(read, after);
    let block = command_block(read, 1, after);
    let cr = can_reply(read, 1, after);
    assert(cr =~= seq![cr[0], cr[1], cr[2], cr[3]] + canopen_reply(node, get, after));
    assert(cr[8] == canopen_reply(node, get, after)[4]);
    assert(block[11] == cr[8]);
    assert(resp =~= seq![FRAME_HEAD] + block + seq![FRAME_TAIL]);
    assert(resp[12] == block[11]);
}

/// A well-formed command of kind `kind` at `p`.
pub open spec fn is_command_at(data: Seq<u8>, p: int, kind: u8) -> bool {
    &&& 0 <= p < data.len()
    &&& command_kind(data[p]) == kind
    &&& command_ok(data, p)
    &&& command_end(data, p) < data.len()
}

/// A serial message whose first payload byte is the IMU address and whose
/// flags ask for the answer is answered with 14, the controller, then the
/// IMU's fourteen-byte answer, whatever its other payload bytes are; without
/// the request for an answer, with 0 and the controller. A message whose
/// first payload byte is another address gets no reply; an empty message
/// goes to the code reader (21, the controller, its 21-byte answer).
pub proof fn lemma_serial_reply(data: Seq<u8>, p: int, modes: Seq<i8>)
    requires
        is_command_at(data, p, 4),
    ensures
        ({
            let reply = command_reply(data, p, modes);
            let flags = data[p + 2];
            let controller = data[p + 3];
            let len = flags % 64;
            &&& (len > 0 && data[p + 6] == 0x77 && flags >= 0xc0) ==> reply == seq![
                14u8, controller, 0x77u8, 0x0du8, 0x00u8, 0x84u8, 0x00u8, 0x02u8, 0x01u8,
                0x10u8, 0x00u8, 0x51u8, 0x00u8, 0x00u8, 0x00u8, 0xf5u8]
            &&& (len > 0 && data[p + 6] == 0x77 && flags < 0xc0) ==> reply == seq![0u8, controller]
            &&& (len > 0 && data[p + 6] != 0x77) ==> reply.len() == 0
            &&& (len == 0 && flags >= 0xc0) ==> reply == seq![
                21u8, controller, 0x00u8, 0x44u8, 0x00u8, 0x00u8, 0x00u8, 0x04u8, 0x7fu8,
                0x5cu8, 0x00u8, 0x00u8, 0x00u8, 0x59u8, 0x00u8, 0x00u8,
                0x00u8, 0x07u8, 0x77u8, 0x54u8, 0x00u8, 0x00u8, 0x4au8]
            &&& (len == 0 && flags < 0xc0) ==> reply == seq![0u8, controller]
        }),
{
    let reply = command_reply(data, p, modes);
    let controller = data[p + 3];
    if serial_len(data, p) > 0 && data[p + 6] == 0x77 && data[p + 2] >= 0xc0 {
        assert(reply =~= seq![
            14u8, controller, 0x77u8, 0x0du8, 0x00u8, 0x84u8, 0x00u8, 0x02u8, 0x01u8,
            0x10u8, 0x00u8, 0x51u8, 0x00u8, 0x00u8, 0x00u8, 0xf5u8]);
    }
    if serial_len(data, p) == 0 && data[p + 2] >= 0xc0 {
        assert(reply =~= seq![
            21u8, controller, 0x00u8, 0x44u8, 0x00u8, 0x00u8, 0x00u8, 0x04u8, 0x7fu8,
            0x5cu8, 0x00u8, 0x00u8, 0x00u8, 0x59u8, 0x00u8, 0x00u8,
            0x00u8, 0x07u8, 0x77u8, 0x54u8, 0x00u8, 0x00u8, 0x4au8]);
    }
}

/// An IO command is answered with its group byte followed by its pin mask
/// (the bytes at p+8..p+12) twice, for every op byte.
pub proof fn lemma_io_reply(data: Seq<u8>, p: int, modes: Seq<i8>)
    requires
        is_command_at(data, p, 3),
    ensures
        command_reply(data, p, modes) == seq![data[p + 2], data[p + 8], data[p + 9], data[p + 10],
            data[p + 11], data[p + 8], data[p + 9], data[p + 10], data[p + 11]],
{
    assert(command_reply(data, p, modes) =~= seq![data[p + 2], data[p + 8], data[p + 9], data[p + 10],
        data[p + 11], data[p + 8], data[p + 9], data[p + 10], data[p + 11]]);
}

/// Two IO commands that differ only in their op byte and pin-data bytes
/// (p+3..p+8) get the same reply.
pub proof fn lemma_io_reply_ignores_op_and_pins(a: Seq<u8>, b: Seq<u8>, p: int, modes: Seq<i8>)
    requires
        is_command_at(a, p, 3),
        is_command_at(b, p, 3),
        forall|i: int| p <= i < p + 12 && !(p + 3 <= i < p + 8) ==> a[i] == b[i],
    ensures
        command_reply(a, p, modes) == command_reply(b, p, modes),
{
    lemma_io_reply(a, p, modes);
    lemma_io_reply(b, p, modes);
    assert(a[p + 2] == b[p + 2]);
    assert(a[p + 8] == b[p + 8]);
    assert(a[p + 9] == b[p + 9]);
    assert(a[p + 10] == b[p + 10]);
    assert(a[p + 11] == b[p + 11]);
}

/// A forwarded CAN frame whose identifier is a receive PDO (0x80..0x100) is
/// answered with 8, the controller, the identifier with bit 9 set (high
/// byte 0x02, low byte the identifier's), then exactly eight 0x01 bytes,
/// whatever the request's data length.
pub proof fn lemma_pdo_reply(data: Seq<u8>, p: int, modes: Seq<i8>)
    requires
        is_command_at(data, p, 2),
        0x80 <= can_identifier(data, p) < 0x100,
    ensures
        ({
            let reply = command_reply(data, p, modes);
            &&& reply.len() == 12
            &&& reply[0] == 8
            &&& reply[1] == data[p + 3]
            &&& reply[2] == 0x02
            &&& reply[3] == can_identifier(data, p)
            &&& forall|i: int| 4 <= i < 12 ==> #[trigger] reply[i] == 1
        }),
{
}

/// Within one frame, each command is answered with the modes that the
/// commands before it left: in a frame that writes the mode of node `node`
/// and then reads that node's running mode, the read reports the byte just
/// written (byte 27 of the answer).
pub proof fn lemma_write_then_read_in_one_frame(node: int, data: Seq<u8>, modes: Seq<i8>)
    requires
        modes.len() == NODE_COUNT,
        passive_well_formed(data),
        is_command_at(data, 1, 2),
        is_sdo_request(can_identifier(data, 1)),
        can_identifier(data, 1) == SDO_REQUEST_BASE + node,
        object_index(can_payload(data, 1)) == SET_CONTROL_MODE,
        is_command_at(data, command_end(data, 1), 2),
        is_sdo_request(can_identifier(data, command_end(data, 1))),
        can_identifier(data, command_end(data, 1)) == SDO_REQUEST_BASE + node,
        object_index(can_payload(data, command_end(data, 1))) == GET_RUNNING_MODE,
        data[command_end(data, command_end(data, 1))] == FRAME_TAIL,
    ensures
        passive_response(data, modes).len() == 32,
        passive_response(data, modes)[27] == can_payload(data, 1)[4],
{
    let q = command_end(data, 1);
    let e = command_end(data, q);
    let write = can_payload(data, 1);
    let read = can_payload(data, q);
    assert(continues_at(data, 1));
    assert(continues_at(data, q));
    assert(!continues_at(data, e));
    let after = command_modes(data, 1, modes);
    assert(after == canopen_modes(node, write, modes));
    assert(blocks_from(data, e, command_modes(data, q, after)) == Seq::<u8>::empty());
    crate::canopen::lemma_mode_write_then_read(node, write, read, modes);
    let b1 = command_block(data, 1, modes);
    let b2 = command_block(data, q, after);
    assert(b1.len() == 15);
    let cr = can_reply(data, q, after);
    assert(cr =~= seq![cr[0], cr[1], cr[2], cr[3]] + canopen_reply(node, read, after));
    assert(b2[11] == cr[8]);
    assert(blocks_from(data, q, after) =~= b2);
    assert(blocks_from(data, 1, modes) =~= b1 + b2);
    let resp = passive_response(data, modes);
    assert(resp =~= seq![FRAME_HEAD] + b1 + b2 + seq![FRAME_TAIL]);
    assert(resp[27] == b2[11]);
}

/// How far each kind of command reaches, counted from its type/sequence
/// byte: test, message group response, read count and the unknown kinds
/// take 2 bytes; system 14; CAN 6 plus the data length (low nibble of byte
/// 2); IO 12; serial 6 plus the payload length (low six bits of byte 2);
/// motor 8; battery and message group 6; flash 8 plus byte 7; command
/// manager 9 plus byte 8; safety 11; charging 4 plus byte 3.
pub proof fn lemma_command_sizes(data: Seq<u8>, p: int)
    ensures
        ({
            let kind = data[p] / 16;
            let size = command_end(data, p) - p;
            &&& (kind == 0 || kind == 11 || kind == 12 || kind == 14 || kind == 15) ==> size == 2
            &&& kind == 1 ==> size == 14
            &&& kind == 2 ==> size == 6 + data[p + 2] % 16
            &&& kind == 3 ==> size == 12
            &&& kind == 4 ==> size == 6 + data[p + 2] % 64
            &&& kind == 5 ==> size == 8
            &&& (kind == 6 || kind == 8) ==> size == 6
            &&& kind == 7 ==> size == 8 + data[p + 7]
            &&& kind == 9 ==> size == 9 + data[p + 8]
            &&& kind == 10 ==> size == 11
            &&& kind == 13 ==> size == 4 + data[p + 3]
        }),
{
}

/// The replies that do not depend on the command's fields: a test command
/// reports version 11 22 33 44; a safety exchange, seventeen zero bytes; a
/// counter read, eight zero bytes then eight 0xff bytes; every other kind
/// apart from CAN, IO and serial, nothing.
pub proof fn lemma_fixed_replies(data: Seq<u8>, p: int, modes: Seq<i8>)
    requires
        0 <= p < data.len(),
    ensures
        ({
            let kind = data[p] / 16;
            let reply = command_reply(data, p, modes);
            &&& kind == 0 ==> reply == seq![0x11u8, 0x22u8, 0x33u8, 0x44u8]
            &&& kind == 10 ==> reply.len() == 17 && forall|i: int| 0 <= i < 17 ==> #[trigger] reply[i] == 0
            &&& kind == 12 ==> reply.len() == 16
                && (forall|i: int| 0 <= i < 8 ==> #[trigger] reply[i] == 0)
                && (forall|i: int| 8 <= i < 16 ==> #[trigger] reply[i] == 0xff)
            &&& (kind == 1 || kind == 5 || kind == 6 || kind == 7 || kind == 8 || kind == 9
                || kind == 11 || kind == 13 || kind == 14 || kind == 15) ==> reply.len() == 0
        }),
{
}

/// The reply to a forwarded CAN frame by its identifier: a heartbeat
/// (0x700 and above) and an identifier outside every known range get no
/// reply; identifier 0 gets 0, the controller, 0, 0; an SDO request
/// (0x600 + n) gets the request's data length, the controller, the response
/// identifier 0x580 + n (high byte first), then the node's eight- or
/// seven-byte SDO reply.
pub proof fn lemma_can_reply_by_identifier(data: Seq<u8>, p: int, modes: Seq<i8>)
    requires
        is_command_at(data, p, 2),
    ensures
        ({
            let id = can_identifier(data, p);
            let reply = command_reply(data, p, modes);
            &&& 0x700 <= id ==> reply.len() == 0
            &&& id == 0 ==> reply == seq![0u8, data[p + 3], 0u8, 0u8]
            &&& (0 < id < 0x80 || 0x100 <= id < 0x600) ==> reply.len() == 0
            &&& 0x600 <= id < 0x700 ==> {
                &&& reply[0] == data[p + 2] % 16
                &&& reply[1] == data[p + 3]
                &&& reply[2] * 256 + reply[3] == 0x580 + (id - 0x600)
                &&& reply.len() == 12 || reply.len() == 11
            }
        }),
{
    let id = can_identifier(data, p);
    if 0x600 <= id < 0x700 {
        lemma_sdo_response_identifier(data, p, modes);
        crate::canopen::lemma_reply_echoes_multiplexer(id - 0x600, can_payload(data, p), modes);
    }
}

/// Every answer starts with 0xfa and ends with 0xff, and is sent exactly
/// when the request holds a command (its byte 1 is not 0xff); a request
/// without commands is answered with just fa ff.
pub proof fn lemma_answer_envelope(data: Seq<u8>, modes: Seq<i8>)
    requires
        passive_well_formed(data),
    ensures
        passive_response(data, modes)[0] == 0xfa,
        passive_response(data, modes).last() == 0xff,
        passive_sends(data) <==> data[1] != 0xff,
        data[1] == 0xff ==> passive_response(data, modes) == seq![0xfau8, 0xffu8],
{
    if data[1] == 0xff {
        assert(!continues_at(data, 1));
        assert(passive_response(data, modes) =~= seq![0xfau8, 0xffu8]);
    }
}

} // verus!
