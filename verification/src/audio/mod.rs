//! Audio: the codecs of the board's revisions, and the block path between the
//! converter's DMA ring and the processing callback.
pub mod codec;
pub mod stream;
