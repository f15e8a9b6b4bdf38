//! How long each phase of a traffic light lasts.

use vstd::prelude::*;

verus! {

/// Something that shows for a fixed time.
pub trait TrafficTrait {
    /// The time in seconds, written in decimal digits.
    spec fn duration(&self) -> Seq<char>;

    /// The time in seconds, as text.
    fn timestamp(&self) -> (time: String)
        ensures
            time@ == self.duration(),
    ;
}

/// The three phases of a traffic light.
#[derive(Clone, Copy, PartialEq, Eq, Debug)]
pub enum TrafficLight {
    Green,
    Yellow,
    Red,
}

impl TrafficTrait for TrafficLight {
    open spec fn duration(&self) -> Seq<char> {
        match self {
            TrafficLight::Green => seq!['2', '0'],
            TrafficLight::Yellow => seq!['3', '0'],
            TrafficLight::Red => seq!['4', '0'],
        }
    }

    fn timestamp(&self) -> (time: String) {
        proof {
            reveal_strlit("20");
            reveal_strlit("30");
            reveal_strlit("40");
        }
        let time = match *self {
            TrafficLight::Green => "20".to_owned(),
            TrafficLight::Yellow => "30".to_owned(),
            TrafficLight::Red => "40".to_owned(),
        };
        assert(time@ =~= self.duration());
        time
    }
}

} // verus!
