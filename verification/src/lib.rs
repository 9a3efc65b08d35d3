//! A minimal, allocation-light I/O abstraction layer.
//!
//! The crate defines four capability traits — [`Read`] for byte sources,
//! [`Write`] for byte sinks, [`Seek`] for repositionable streams, and
//! [`BufRead`] for sources with an internally held unread region — together
//! with the structural adapters built on top of them: [`Take`] bounds the
//! bytes a source may deliver, [`Chain`] concatenates two sources, and
//! [`Cursor`] turns an in-memory byte buffer into a full stream.
//!
//! Every trait method carries a contract phrased over a mathematical model of
//! the stream: a source is a sequence of bytes still to be delivered, a sink
//! is the sequence of bytes accepted so far.  The derived multi-step
//! operations (`read_exact`, `write_all`, `read_until`, and friends) are
//! verified against those contracts alone, so they hold for every conforming
//! implementation, in-memory or external.

pub(crate) mod buffer;
pub mod bufread;
pub mod chain;
pub mod cursor;
pub mod error;
pub mod read;
pub mod seek;
pub mod slice_reader;
pub mod take;
pub mod text;
pub mod vectored;
pub mod write;

pub use bufread::BufRead;
pub use bufread::read_line;
pub use bufread::read_until;
pub use bufread::scan_len;
pub use chain::Chain;
pub use chain::lemma_chain_ordering;
pub use error::Error;
pub use error::ErrorKind;
pub use cursor::Cursor;
pub use cursor::apply_writes;
pub use cursor::lemma_write_round_trip;
pub use cursor::write_at;
pub use cursor::writes_fit;
pub use cursor::written_byte;
pub use read::Bytes;
pub use read::Read;
pub use read::read_to_string;
pub use seek::Seek;
pub use seek::SeekFrom;
pub use take::Take;
pub use take::clamp_take;
pub use take::lemma_take_accounting;
pub use vectored::first_nonempty;
pub use vectored::read_vectored;
pub use vectored::write_vectored;
pub use write::Write;
