//! Quality of Service: queue disciplines and DSCP tagging.

pub mod dscp;
pub mod qdisc;
