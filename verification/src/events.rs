//! The one-line descriptions of daemon events, as the event log shows
//! them.
//!
//! An event is described from its kind and the fields its description
//! names; scores and percentages come already formatted with one decimal.

use vstd::prelude::*;

use crate::argv::lit;
use crate::text::{dec, join_names, joined, push_dec, push_str};

verus! {

/// What an event's description is made of.
#[derive(Debug, Clone)]
pub enum EventSummary {
    InterfaceUp { interface: String },
    InterfaceDown { interface: String },
    /// `score` is the new overall score, with one decimal.
    HealthChanged { interface: String, score: String },
    /// `loss_percent` is the loss, with one decimal.
    PacketLossSpike { interface: String, loss_percent: String },
    CongestionDetected { interface: String, queue_depth: u32 },
    FailoverTriggered { bond: String, new_active: Vec<String> },
    FailoverRecovered { bond: String, new_active: Vec<String> },
    TunnelConnected { tunnel: String },
    TunnelDisconnected { tunnel: String },
    RouteChanged { rule_count: usize },
    BondMembershipChanged { bond: String },
    ConfigReloaded { source: String },
    SubsystemError { subsystem: String, message: String },
    ProfileActivated { profile: String },
    ProfileDeactivated { profile: String },
}

pub open spec fn names_view(v: Seq<String>) -> Seq<Seq<char>> {
    v.map_values(|s: String| s@)
}

/// The description of an event.
pub open spec fn description_spec(e: EventSummary) -> Seq<char> {
    match e {
        EventSummary::InterfaceUp { interface } => "Interface "@ + interface@ + " is up"@,
        EventSummary::InterfaceDown { interface } => "Interface "@ + interface@ + " is down"@,
        EventSummary::HealthChanged { interface, score } => "Interface "@ + interface@ + " health: "@ + score@,
        EventSummary::PacketLossSpike { interface, loss_percent } => "Packet loss spike on "@ + interface@ + ": "@
            + loss_percent@ + "%"@,
        EventSummary::CongestionDetected { interface, queue_depth } => "Congestion on "@ + interface@
            + " (queue depth: "@ + dec(queue_depth as nat) + ")"@,
        EventSummary::FailoverTriggered { bond, new_active } => "Failover on "@ + bond@ + " -> "@ + joined(
            names_view(new_active@),
        ),
        EventSummary::FailoverRecovered { bond, new_active } => "Failover recovered on "@ + bond@ + ": "@ + joined(
            names_view(new_active@),
        ),
        EventSummary::TunnelConnected { tunnel } => "Tunnel "@ + tunnel@ + " connected"@,
        EventSummary::TunnelDisconnected { tunnel } => "Tunnel "@ + tunnel@ + " disconnected"@,
        EventSummary::RouteChanged { rule_count } => "Routes changed ("@ + dec(rule_count as nat) + " rules)"@,
        EventSummary::BondMembershipChanged { bond } => "Bond "@ + bond@ + " membership changed"@,
        EventSummary::ConfigReloaded { source } => "Config reloaded from "@ + source@,
        EventSummary::SubsystemError { subsystem, message } => "Error in "@ + subsystem@ + ": "@ + message@,
        EventSummary::ProfileActivated { profile } => "Profile '"@ + profile@ + "' activated"@,
        EventSummary::ProfileDeactivated { profile } => "Profile '"@ + profile@ + "' deactivated"@,
    }
}

fn text3(a: &str, b: &str, c: &str) -> (t: String)
    ensures
        t@ == a@ + b@ + c@,
{
    let mut t = lit(a);
    push_str(&mut t, b);
    push_str(&mut t, c);
    t
}

impl EventSummary {
    /// The event's one-line description.
    pub fn description(&self) -> (d: String)
        ensures
            d@ == description_spec(*self),
    {
        match self {
            EventSummary::InterfaceUp { interface } => text3("Interface ", interface.as_str(), " is up"),
            EventSummary::InterfaceDown { interface } => text3("Interface ", interface.as_str(), " is down"),
            EventSummary::HealthChanged { interface, score } => {
                let mut t = text3("Interface ", interface.as_str(), " health: ");
                push_str(&mut t, score.as_str());
                t
            },
            EventSummary::PacketLossSpike { interface, loss_percent } => {
                let mut t = text3("Packet loss spike on ", interface.as_str(), ": ");
                push_str(&mut t, loss_percent.as_str());
                push_str(&mut t, "%");
                t
            },
            EventSummary::CongestionDetected { interface, queue_depth } => {
                let mut t = text3("Congestion on ", interface.as_str(), " (queue depth: ");
                push_dec(&mut t, *queue_depth as u64);
                push_str(&mut t, ")");
                t
            },
            EventSummary::FailoverTriggered { bond, new_active } => {
                let mut t = text3("Failover on ", bond.as_str(), " -> ");
                let names = join_names(new_active);
                push_str(&mut t, names.as_str());
                t
            },
            EventSummary::FailoverRecovered { bond, new_active } => {
                let mut t = text3("Failover recovered on ", bond.as_str(), ": ");
                let names = join_names(new_active);
                push_str(&mut t, names.as_str());
                t
            },
            EventSummary::TunnelConnected { tunnel } => text3("Tunnel ", tunnel.as_str(), " connected"),
            EventSummary::TunnelDisconnected { tunnel } => text3("Tunnel ", tunnel.as_str(), " disconnected"),
            EventSummary::RouteChanged { rule_count } => {
                let mut t = lit("Routes changed (");
                push_dec(&mut t, *rule_count as u64);
                push_str(&mut t, " rules)");
                t
            },
            EventSummary::BondMembershipChanged { bond } => text3("Bond ", bond.as_str(), " membership changed"),
            EventSummary::ConfigReloaded { source } => {
                let mut t = lit("Config reloaded from ");
                push_str(&mut t, source.as_str());
                t
            },
            EventSummary::SubsystemError { subsystem, message } => {
                let mut t = text3("Error in ", subsystem.as_str(), ": ");
                push_str(&mut t, message.as_str());
                t
            },
            EventSummary::ProfileActivated { profile } => text3("Profile '", profile.as_str(), "' activated"),
            EventSummary::ProfileDeactivated { profile } => text3("Profile '", profile.as_str(), "' deactivated"),
        }
    }
}

} // verus!
