use vstd::prelude::*;

verus! {

/// Quality-of-service level of a publication or a subscription.
#[derive(Clone, Copy, Debug, PartialEq, Eq, Structural)]
pub enum QoS {
    AtMostOnce,
    AtLeastOnce,
    ExactlyOnce,
}

impl QoS {
    /// Numeric level of the QoS (0, 1 or 2).
    pub open spec fn level(self) -> nat {
        match self {
            QoS::AtMostOnce => 0,
            QoS::AtLeastOnce => 1,
            QoS::ExactlyOnce => 2,
        }
    }

    pub fn as_u8(self) -> (r: u8)
        ensures
            r as nat == self.level(),
    {
        match self {
            QoS::AtMostOnce => 0,
            QoS::AtLeastOnce => 1,
            QoS::ExactlyOnce => 2,
        }
    }
}

/// The lower of two QoS levels.
pub open spec fn spec_min_qos(a: QoS, b: QoS) -> QoS {
    if a.level() <= b.level() { a } else { b }
}

/// Effective QoS of a delivery: the lower of the publication's and the subscription's.
pub fn min_qos(a: QoS, b: QoS) -> (r: QoS)
    ensures
        r == spec_min_qos(a, b),
        r.level() <= a.level(),
        r.level() <= b.level(),
        r.level() == a.level() || r.level() == b.level(),
{
    if a.as_u8() <= b.as_u8() { a } else { b }
}

} // verus!
