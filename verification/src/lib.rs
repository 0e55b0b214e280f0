//! Descriptor tables and stream tables for WASI hosts.
//!
//! Two tables stand at the centre. [`descriptors`] holds the file descriptors of
//! a program: a bounded table whose closed slots form a free list. [`table`]
//! maps keys to resources of the host and knows which resource is a child of
//! which; [`table_streams`] keeps the streams of [`stream`] in it.
//!
//! The modules that end in `answers` say what each call answers and changes, in
//! terms of the slots and entries; those that end in `laws` and [`free_list`]
//! say how calls relate.

pub mod preview1;
pub mod bindings;
pub mod model;
pub mod descriptors;
pub mod descriptor_answers;
pub mod descriptor_laws;
pub mod free_list;
pub mod outside;
pub mod stream;
pub mod stream_answers;
pub mod table;
pub mod table_answers;
pub mod table_streams;
pub mod table_laws;
