//! Host-side transport and transaction layer for digitalservo nodes on a
//! CAN-FD bus: segmented transfers, reassembly, receive demultiplexing and
//! the retry logic of reliable requests.

pub mod frame;
pub mod codec;
pub mod crc;
pub mod independence;
pub mod interface;
pub mod reassembly;
pub mod read;
pub mod transaction;
pub mod transfer;

pub use frame::{LinkError, RxData, RxFrame, RxPacket, RxProps, ReassemblyBuffer, TransferKind, TransferType, TxPacket};
pub use interface::CANInterface;
