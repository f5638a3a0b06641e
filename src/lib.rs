//! A replicated todo-list core: the document model and the commands that edit
//! it, the sync protocol's decisions, the datagram and stream codecs, the
//! connection rules of the stream transports and their restart policy, the
//! decisions of the ingest adapter and of the tool-call server, and the
//! editing state of the terminal front end.
pub mod crdt;
pub mod datagram;
pub mod ingest;
pub mod model;
pub mod peers;
pub mod protocol;
pub mod replica;
pub mod rpc;
pub mod supervisor;
pub mod text;
pub mod tui;
