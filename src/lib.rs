pub mod frame;
pub mod injector;
pub mod replay;
pub mod rpc;
