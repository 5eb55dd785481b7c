//! CANopen SDO server model: the reply of a virtual drive to one SDO
//! request, and the per-node operating modes that those requests set and
//! read back.

use vstd::prelude::*;

verus! {

/// Number of drive nodes whose operating mode is kept.
pub const NODE_COUNT: usize = 16;

/// Command specifier of a confirmed download (a write succeeded).
pub const WRITE_ACK: u8 = 0x60;

/// Command specifier of an expedited upload carrying one data byte.
pub const READ_1_BYTE: u8 = 0x4f;

/// Command specifier of an expedited upload carrying two data bytes.
pub const READ_2_BYTES: u8 = 0x4b;

/// Command specifier of an expedited upload carrying four data bytes.
pub const READ_4_BYTES: u8 = 0x43;

/// Command specifier of an upload whose data follows in segments.
pub const READ_SEGMENTED: u8 = 0x41;

/// Command specifier answered for an object the drive does not know.
pub const UNKNOWN_OBJECT: u8 = 0xcc;

/// Object index of the control word.
pub const CONTROL_WORD: u16 = 0x6040;

/// Object index of the "modes of operation" entry (written by the host).
pub const SET_CONTROL_MODE: u16 = 0x6060;

/// Object index of the "modes of operation display" entry (read back).
pub const GET_RUNNING_MODE: u16 = 0x6061;

/// The operating mode of each drive node, as last set by an SDO write of
/// the "modes of operation" object.
pub struct MotorModes {
    modes: Vec<i8>,
}

impl View for MotorModes {
    type V = Seq<i8>;

    closed spec fn view(&self) -> Seq<i8> {
        self.modes@
    }
}

impl MotorModes {
    /// A table holds exactly one mode per node.
    pub open spec fn wf(&self) -> bool {
        self@.len() == NODE_COUNT
    }

    /// All nodes start in mode 0.
    pub fn new() -> (r: MotorModes)
        ensures
            r.wf(),
            r@ == Seq::new(NODE_COUNT as nat, |i: int| 0i8),
    {
        let mut modes: Vec<i8> = Vec::new();
        let mut i: usize = 0;
        while i < NODE_COUNT
            invariant
                i <= NODE_COUNT,
                modes@ == Seq::new(i as nat, |k: int| 0i8),
            decreases NODE_COUNT - i,
        {
            modes.push(0i8);
            i = i + 1;
        }
        MotorModes { modes }
    }

    /// The mode of node `node`.
    pub fn mode(&self, node: usize) -> (m: i8)
        requires
            self.wf(),
            node < NODE_COUNT,
        ensures
            m == self@[node as int],
    {
        self.modes[node]
    }

    /// Sets the mode of node `node`, leaving the others as they were.
    pub fn set_mode(&mut self, node: usize, mode: i8)
        requires
            old(self).wf(),
            node < NODE_COUNT,
        ensures
            final(self).wf(),
            final(self)@ == old(self)@.update(node as int, mode),
    {
        self.modes.set(node, mode);
    }
}

/// The object index that an SDO request addresses: bytes 1 (low) and 2 (high).
pub open spec fn object_index(req: Seq<u8>) -> u16 {
    (req[2] as int * 256 + req[1] as int) as u16
}

/// The command specifier that answers a request for the object `index`
/// (the control word is answered apart, see `canopen_reply`).
pub open spec fn sdo_code(index: u16) -> u8 {
    if index == 0x1000 || index == 0x2ff7 || index == 0x6063 || index == 0x606c
        || index == 0x6075 || index == 0x6078 {
        READ_4_BYTES
    } else if index == 0x60f6 || index == 0x6510 || index == 0x3000 {
        READ_2_BYTES
    } else if index == 0x6410 || index == 0x1008 || index == 0x100a || index == 0x2ff8 {
        READ_SEGMENTED
    } else if index == GET_RUNNING_MODE {
        READ_1_BYTE
    } else if index == 0x100c || index == 0x100d || index == 0x6007 || index == CONTROL_WORD
        || index == 0x605a || index == 0x605e || index == SET_CONTROL_MODE || index == 0x6085
        || index == 0x60ff || index == 0x1005 || index == 0x1600 || index == 0x1400
        || index == 0x1a00 || index == 0x1a01 || index == 0x1800 || index == 0x1801 {
        WRITE_ACK
    } else {
        UNKNOWN_OBJECT
    }
}

/// A request for which the drive has an answer: the command byte, the
/// object index and the sub-index are present; a write of the mode also
/// carries its data byte; and the mode objects address a known node.
pub open spec fn canopen_request_ok(node: int, req: Seq<u8>) -> bool {
    &&& req.len() >= 4
    &&& object_index(req) == SET_CONTROL_MODE ==> req.len() >= 5
    &&& (object_index(req) == SET_CONTROL_MODE || object_index(req) == GET_RUNNING_MODE)
        ==> 0 <= node < NODE_COUNT
}

/// Whether a control-word request is one of the three expedited download
/// specifiers (one, two or four data bytes).
pub open spec fn is_expedited_download(command: u8) -> bool {
    command == 0x2f || command == 0x2b || command == 0x23
}

/// The reply of node `node` to the SDO request `req`, with the modes
/// `modes` in force: the command specifier, the echoed index and
/// sub-index, then four data bytes. The control word is confirmed only for
/// an expedited download and otherwise lacks the specifier; the running
/// mode read carries the node's mode as its first data byte.
pub open spec fn canopen_reply(node: int, req: Seq<u8>, modes: Seq<i8>) -> Seq<u8> {
    let mux = seq![req[1], req[2], req[3]];
    let index = object_index(req);
    if index == CONTROL_WORD {
        if is_expedited_download(req[0]) {
            seq![WRITE_ACK] + mux + seq![0u8, 0u8, 0u8, 0u8]
        } else {
            mux + seq![0u8, 0u8, 0u8, 0u8]
        }
    } else if index == GET_RUNNING_MODE {
        seq![READ_1_BYTE] + mux + seq![modes[node] as u8, 0u8, 0u8, 0u8]
    } else {
        seq![sdo_code(index)] + mux + seq![0u8, 0u8, 0u8, 0u8]
    }
}

/// The modes after node `node` served `req`: a write of the mode object
/// stores its first data byte; every other request leaves them unchanged.
pub open spec fn canopen_modes(node: int, req: Seq<u8>, modes: Seq<i8>) -> Seq<i8> {
    if object_index(req) == SET_CONTROL_MODE {
        modes.update(node, req[4] as i8)
    } else {
        modes
    }
}

/// The command specifier that answers a request for the object `index`.
pub fn sdo_response_code(index: u16) -> (code: u8)
    ensures
        code == sdo_code(index),
{
    match index {
        0x1000 | 0x2ff7 | 0x6063 | 0x606c | 0x6075 | 0x6078 => READ_4_BYTES,
        0x60f6 | 0x6510 | 0x3000 => READ_2_BYTES,
        0x6410 | 0x1008 | 0x100a | 0x2ff8 => READ_SEGMENTED,
        0x6061 => READ_1_BYTE,
        0x100c | 0x100d | 0x6007 | 0x6040 | 0x605a | 0x605e | 0x6060 | 0x6085 | 0x60ff
        | 0x1005 | 0x1600 | 0x1400 | 0x1a00 | 0x1a01 | 0x1800 | 0x1801 => WRITE_ACK,
        _ => UNKNOWN_OBJECT,
    }
}

/// Serves the SDO request `recv_v` addressed to node `node_id`: returns the
/// reply and records a written operating mode in `modes`.
pub fn canopen_data_process(node_id: u16, recv_v: Vec<u8>, modes: &mut MotorModes) -> (send_v: Vec<u8>)
    requires
        old(modes).wf(),
        canopen_request_ok(node_id as int, recv_v@),
    ensures
        final(modes).wf(),
        send_v@ == canopen_reply(node_id as int, recv_v@, old(modes)@),
        final(modes)@ == canopen_modes(node_id as int, recv_v@, old(modes)@),
{
    let index: u16 = (recv_v[2] as u16) * 256 + (recv_v[1] as u16);
    assert(index == object_index(recv_v@));
    let mut send_v: Vec<u8> = Vec::new();
    if index == CONTROL_WORD {
        if recv_v[0] == 0x2f || recv_v[0] == 0x2b || recv_v[0] == 0x23 {
            send_v.push(WRITE_ACK);
        }
    } else if index == GET_RUNNING_MODE {
        send_v.push(READ_1_BYTE);
    } else {
        if index == SET_CONTROL_MODE {
            modes.set_mode(node_id as usize, recv_v[4] as i8);
        }
        send_v.push(sdo_response_code(index));
    }
    send_v.push(recv_v[1]);
    send_v.push(recv_v[2]);
    send_v.push(recv_v[3]);
    if index == GET_RUNNING_MODE {
        let mode = modes.mode(node_id as usize);
        send_v.push(mode as u8);
    } else {
        send_v.push(0);
    }
    send_v.push(0);
    send_v.push(0);
    send_v.push(0);
    let ghost r = canopen_reply(node_id as int, recv_v@, old(modes)@);
    assert(send_v@ =~= r);
    send_v
}

/// A write of the running mode to a node is what a later read of that
/// node's running mode reports: the read's first data byte is the byte
/// that was written.
pub proof fn lemma_mode_write_then_read(node: int, write: Seq<u8>, read: Seq<u8>, modes: Seq<i8>)
    requires
        modes.len() == NODE_COUNT,
        canopen_request_ok(node, write),
        canopen_request_ok(node, read),
        object_index(write) == SET_CONTROL_MODE,
        object_index(read) == GET_RUNNING_MODE,
    ensures
        canopen_reply(node, read, canopen_modes(node, write, modes))[4] == write[4],
        canopen_reply(node, read, canopen_modes(node, write, modes)).len() == 8,
{
    let b = write[4];
    assert((b as i8) as u8 == b) by (bit_vector);
}

/// Only a write of the mode object changes the modes, and it changes only
/// the addressed node's entry.
pub proof fn lemma_modes_change_only_on_write(node: int, req: Seq<u8>, modes: Seq<i8>)
    requires
        modes.len() == NODE_COUNT,
        canopen_request_ok(node, req),
    ensures
        canopen_modes(node, req, modes).len() == NODE_COUNT,
        object_index(req) != SET_CONTROL_MODE ==> canopen_modes(node, req, modes) == modes,
        forall|k: int| 0 <= k < NODE_COUNT && k != node ==> #[trigger] canopen_modes(node, req, modes)[k] == modes[k],
{
}

/// Every reply echoes the request's object index and sub-index right after
/// its command specifier and ends in data bytes: eight bytes in all, or
/// seven for a control word that is not an expedited download, which has no
/// specifier.
pub proof fn lemma_reply_echoes_multiplexer(node: int, req: Seq<u8>, modes: Seq<i8>)
    requires
        canopen_request_ok(node, req),
    ensures
        ({
            let r = canopen_reply(node, req, modes);
            let skip: int = if object_index(req) == CONTROL_WORD && !is_expedited_download(req[0]) { 0 } else { 1 };
            &&& r.len() == 7 + skip
            &&& r[skip] == req[1] && r[skip + 1] == req[2] && r[skip + 2] == req[3]
            &&& forall|k: int| skip + 3 <= k < r.len() ==> #[trigger] r[k] == 0
                || (object_index(req) == GET_RUNNING_MODE && k == 4)
        }),
{
}

/// The command specifier of each object of the drive's object table, by
/// the object's index: four-byte uploads (device model and time, current
/// speed and position, rated current, loading rate), two-byte uploads (peak
/// driver utilisation, peak current, bus voltage), segmented uploads (motor
/// serial number, device name, software version, serial number), the
/// one-byte running mode, and confirmed writes; every index outside the
/// table is answered as an unknown object.
pub proof fn lemma_sdo_code_table(index: u16)
    ensures
        (index == 0x1000 || index == 0x2ff7 || index == 0x6063 || index == 0x606c
            || index == 0x6075 || index == 0x6078) ==> sdo_code(index) == 0x43,
        (index == 0x60f6 || index == 0x6510 || index == 0x3000) ==> sdo_code(index) == 0x4b,
        (index == 0x6410 || index == 0x1008 || index == 0x100a || index == 0x2ff8)
            ==> sdo_code(index) == 0x41,
        index == 0x6061 ==> sdo_code(index) == 0x4f,
        (index == 0x100c || index == 0x100d || index == 0x6007 || index == 0x6040
            || index == 0x605a || index == 0x605e || index == 0x6060 || index == 0x6085
            || index == 0x60ff || index == 0x1005 || index == 0x1600 || index == 0x1400
            || index == 0x1a00 || index == 0x1a01 || index == 0x1800 || index == 0x1801)
            ==> sdo_code(index) == 0x60,
        !(index == 0x1000 || index == 0x2ff7 || index == 0x6063 || index == 0x606c
            || index == 0x6075 || index == 0x6078 || index == 0x60f6 || index == 0x6510
            || index == 0x3000 || index == 0x6410 || index == 0x1008 || index == 0x100a
            || index == 0x2ff8 || index == 0x6061 || index == 0x100c || index == 0x100d
            || index == 0x6007 || index == 0x6040 || index == 0x605a || index == 0x605e
            || index == 0x6060 || index == 0x6085 || index == 0x60ff || index == 0x1005
            || index == 0x1600 || index == 0x1400 || index == 0x1a00 || index == 0x1a01
            || index == 0x1800 || index == 0x1801) ==> sdo_code(index) == 0xcc,
{
}

/// The first byte of a drive's reply is the command specifier of the
/// addressed object, by the object table (see `lemma_sdo_code_table`): for
/// instance an upload of the current speed (0x6063) is answered with 0x43,
/// and an index outside the table with 0xcc. The control word is confirmed
/// with 0x60 when the request is an expedited download (0x2f, 0x2b, 0x23),
/// and otherwise starts with the echoed index.
pub proof fn lemma_reply_specifier(node: int, req: Seq<u8>, modes: Seq<i8>)
    requires
        canopen_request_ok(node, req),
    ensures
        ({
            let index = object_index(req);
            let first = canopen_reply(node, req, modes)[0];
            &&& index != 0x6040 ==> first == sdo_code(index)
            &&& (index == 0x6063 ==> first == 0x43)
            &&& (index == 0x6040 && (req[0] == 0x2f || req[0] == 0x2b || req[0] == 0x23)) ==> first == 0x60
            &&& (index == 0x6040 && !(req[0] == 0x2f || req[0] == 0x2b || req[0] == 0x23)) ==> first == req[1]
        }),
{
    lemma_sdo_code_table(object_index(req));
}

/// The modes after a run of requests, each a node and the request it
/// served, in order.
pub open spec fn modes_after_requests(requests: Seq<(int, Seq<u8>)>, modes: Seq<i8>) -> Seq<i8>
    decreases requests.len(),
{
    if requests.len() == 0 {
        modes
    } else {
        let (node, req) = requests.last();
        canopen_modes(node, req, modes_after_requests(requests.drop_last(), modes))
    }
}

/// Whether every request of a run can be served.
pub open spec fn requests_ok(requests: Seq<(int, Seq<u8>)>) -> bool {
    forall|i: int| 0 <= i < requests.len() ==> canopen_request_ok(#[trigger] requests[i].0, requests[i].1)
}

/// Whether no request of a run writes the mode of node `node`.
pub open spec fn no_mode_write_to(requests: Seq<(int, Seq<u8>)>, node: int) -> bool {
    forall|i: int| 0 <= i < requests.len() ==> !(#[trigger] requests[i].0 == node
        && object_index(requests[i].1) == SET_CONTROL_MODE)
}

/// A run of requests that writes no mode of node `node` leaves that node's
/// mode, and the table's size, as they were.
pub proof fn lemma_requests_keep_mode(requests: Seq<(int, Seq<u8>)>, node: int, modes: Seq<i8>)
    requires
        modes.len() == NODE_COUNT,
        0 <= node < NODE_COUNT,
        requests_ok(requests),
        no_mode_write_to(requests, node),
    ensures
        modes_after_requests(requests, modes).len() == NODE_COUNT,
        modes_after_requests(requests, modes)[node] == modes[node],
    decreases requests.len(),
{
    if requests.len() > 0 {
        let rest = requests.drop_last();
        assert(requests_ok(rest)) by {
            assert forall|i: int| 0 <= i < rest.len() implies canopen_request_ok(#[trigger] rest[i].0, rest[i].1) by {
                assert(rest[i] == requests[i]);
            }
        }
        assert(no_mode_write_to(rest, node)) by {
            assert forall|i: int| 0 <= i < rest.len() implies !(#[trigger] rest[i].0 == node
                && object_index(rest[i].1) == SET_CONTROL_MODE) by {
                assert(rest[i] == requests[i]);
            }
        }
        lemma_requests_keep_mode(rest, node, modes);
        let last = requests[requests.len() - 1];
        assert(canopen_request_ok(last.0, last.1));
        assert(!(last.0 == node && object_index(last.1) == SET_CONTROL_MODE));
        lemma_modes_change_only_on_write(last.0, last.1, modes_after_requests(rest, modes));
    }
}

/// A read of a node's running mode reports the byte of the last write of
/// that node's mode, whatever requests came in between, as long as none of
/// them wrote that node's mode.
pub proof fn lemma_read_reports_last_write(
    node: int,
    write: Seq<u8>,
    between: Seq<(int, Seq<u8>)>,
    read: Seq<u8>,
    modes: Seq<i8>,
)
    requires
        modes.len() == NODE_COUNT,
        canopen_request_ok(node, write),
        object_index(write) == SET_CONTROL_MODE,
        requests_ok(between),
        no_mode_write_to(between, node),
        canopen_request_ok(node, read),
        object_index(read) == GET_RUNNING_MODE,
    ensures
        canopen_reply(node, read, modes_after_requests(between, canopen_modes(node, write, modes)))[4]
            == write[4],
{
    let written = canopen_modes(node, write, modes);
    lemma_requests_keep_mode(between, node, written);
    let b = write[4];
    assert((b as i8) as u8 == b) by (bit_vector);
}

} // verus!
