//! Narrow handles: packing a two-word dynamic-dispatch reference into a
//! single machine word.
//!
//! A polymorphic reference normally needs two words: a pointer to the
//! object's data and a pointer to its dispatch table.  This crate models a
//! storage scheme that co-locates the dispatch-table word immediately before
//! the object's own bytes inside one combined allocation, so a handle need
//! only store the payload address; the dispatch word is recovered by a
//! fixed-offset read one word below it.
//!
//! The crate is organised by component: [`layout`] plans each combined
//! allocation's geometry, [`dispatch`] issues dispatch-table identities and
//! compares them for downcasting, [`arena`] is the shared construction,
//! recovery and teardown core over an explicit memory model, and
//! [`manual`] / [`gc`] are the two thin ownership backends on top of it.
//! [`laws`] states and proves the guarantees that hold across backends;
//! [`samples`] holds a small interface with concrete payload types for
//! exercising dispatch.

pub mod arena;
pub mod dispatch;
pub mod gc;
pub mod laws;
pub mod layout;
pub mod manual;
pub mod samples;
