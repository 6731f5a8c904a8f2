//! Driver core for a USB CAN-FD adapter that speaks an ASCII line protocol:
//! the frame codec and the buffered, two-phase transfer protocol.
pub mod bus;
pub mod error;
pub mod frames;
pub mod hexcode;
pub mod roundtrip;
pub mod text;

pub use bus::{
    first_newline, lemma_bad_ack_loses_sync, packet_outcome, step_result, Framer, FramerModel,
    Phase, Step, StepModel, DEFAULT_BUFFER_LEN,
};
pub use error::{
    InvalidFrameLength, ParseError, ParseFault, ReadError, ReadFault, TransferError, WriteError,
};
pub use frames::{
    decode_fault, decoded_frame, encode_line, padded_len, CanFdFrame, FdCanUSBFrame, FrameModel,
    MAX_DATA_LEN, PAD_BYTE,
};
pub use roundtrip::{as_response, lemma_flag_case, lemma_round_trip};
