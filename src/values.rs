//! Bounded-range parameter values. Construction can fail; a value that was
//! constructed is always in range.
use vstd::prelude::*;

verus! {

/// Largest brightness or percentage.
pub const PERCENT_MAX: u32 = 100;

/// Colour-temperature bounds, in kelvin.
pub const TEMP_MIN: u32 = 1700;
pub const TEMP_MAX: u32 = 6500;

/// Hue and saturation upper bounds, as the device documents them.
pub const HUE_MAX: u32 = 100;
pub const SATURATION_MAX: u32 = 359;

/// A relative adjustment, in percent (0 to 100).
pub struct Percentage(u32);

impl View for Percentage {
    type V = u32;

    closed spec fn view(&self) -> u32 {
        self.0
    }
}

impl Percentage {
    #[verifier::type_invariant]
    spec fn in_range(&self) -> bool {
        self.0 <= PERCENT_MAX
    }

    pub fn create(percentage: u32) -> (r: Option<Percentage>)
        ensures
            r is Some <==> percentage <= PERCENT_MAX,
            r matches Some(p) ==> p@ == percentage,
    {
        if percentage <= PERCENT_MAX {
            Some(Percentage(percentage))
        } else {
            None
        }
    }

    pub fn as_u32(&self) -> (r: u32)
        ensures
            r == self@,
            r <= PERCENT_MAX,
    {
        proof {
            use_type_invariant(self);
        }
        self.0
    }
}

/// A delay, in minutes; every value is accepted.
pub struct Delay(u32);

impl View for Delay {
    type V = u32;

    closed spec fn view(&self) -> u32 {
        self.0
    }
}

impl Delay {
    pub fn create(delay: u32) -> (r: Option<Delay>)
        ensures
            r matches Some(d) && d@ == delay,
    {
        Some(Delay(delay))
    }

    pub fn as_u32(&self) -> (r: u32)
        ensures
            r == self@,
    {
        self.0
    }
}

/// How long a transition lasts, in milliseconds; every value is accepted.
pub struct TransitionDuration(u32);

impl View for TransitionDuration {
    type V = u32;

    closed spec fn view(&self) -> u32 {
        self.0
    }
}

impl TransitionDuration {
    pub fn create(transition_duration: u32) -> (r: Option<TransitionDuration>)
        ensures
            r matches Some(d) && d@ == transition_duration,
    {
        Some(TransitionDuration(transition_duration))
    }

    pub fn as_u32(&self) -> (r: u32)
        ensures
            r == self@,
    {
        self.0
    }
}

/// A brightness, in percent (0 to 100).
pub struct Brightness(u32);

impl View for Brightness {
    type V = u32;

    closed spec fn view(&self) -> u32 {
        self.0
    }
}

impl Brightness {
    #[verifier::type_invariant]
    spec fn in_range(&self) -> bool {
        self.0 <= PERCENT_MAX
    }

    pub fn create(brightness: u32) -> (r: Option<Brightness>)
        ensures
            r is Some <==> brightness <= PERCENT_MAX,
            r matches Some(b) ==> b@ == brightness,
    {
        if brightness <= PERCENT_MAX {
            Some(Brightness(brightness))
        } else {
            None
        }
    }

    pub fn as_u32(&self) -> (r: u32)
        ensures
            r == self@,
            r <= PERCENT_MAX,
    {
        proof {
            use_type_invariant(self);
        }
        self.0
    }
}

pub enum Mode {
    Daylight,
    Moonlight,
}

pub enum ColorMode {
    Rgb,
    Ct,
    Hsv,
}

/// A colour: red/green/blue channels, a temperature in kelvin, or hue and
/// saturation.
#[derive(Clone, Copy, PartialEq, Eq, Structural, Debug)]
pub enum Color {
    Rgb(u8, u8, u8),
    Temp(u32),
    Hsv(u32, u32),
}

impl Color {
    pub fn create_rgb(red: u8, green: u8, blue: u8) -> (r: Option<Color>)
        ensures
            r == Some(Color::Rgb(red, green, blue)),
    {
        Some(Color::Rgb(red, green, blue))
    }

    pub fn create_temp(temp: u32) -> (r: Option<Color>)
        ensures
            r is Some <==> TEMP_MIN <= temp <= TEMP_MAX,
            r is Some ==> r == Some(Color::Temp(temp)),
    {
        if TEMP_MIN <= temp && temp <= TEMP_MAX {
            Some(Color::Temp(temp))
        } else {
            None
        }
    }

    pub fn create_hsv(hue: u32, saturation: u32) -> (r: Option<Color>)
        ensures
            r is Some <==> hue <= HUE_MAX && saturation <= SATURATION_MAX,
            r is Some ==> r == Some(Color::Hsv(hue, saturation)),
    {
        if hue <= HUE_MAX && saturation <= SATURATION_MAX {
            Some(Color::Hsv(hue, saturation))
        } else {
            None
        }
    }
}

/// How the device moves to a new state.
#[derive(Clone, Copy, PartialEq, Eq, Structural, Debug)]
pub enum Effect {
    Sudden,
    Smooth,
}

pub enum FlowAction {
    Recover,
    Stay,
    TurnOff,
}

pub enum FlowMode {
    Color,
    ColorTemperature,
    Sleep,
}

/// One step of a colour flow.
pub struct FlowExpression {
    pub duration: TransitionDuration,
    pub value: Option<Color>,
    pub brightness: Option<Brightness>,
}

pub enum CronType {
    TurnOff,
}

pub enum AdjustAction {
    Increase,
    Decrease,
    Circle,
}

pub enum AdjustProp {
    Bright,
    Ct,
    Color,
}

pub enum SceneClass {
    Color,
    Hsv,
    Ct,
    Flow,
    AutoDelayOff,
}

/// A device property, as the device reports it.
pub enum Prop {
    ActiveMode,
    BgBrightness(Brightness),
    BgColorMode(ColorMode),
    BgFlowParams(FlowAction, Vec<FlowExpression>),
    BgFlowing(bool),
    BgPower(bool),
    Brightness(Brightness),
    Color(Color),
    ColorMode(ColorMode),
    DelayOff(u32),
    FlowParams(FlowAction, Vec<FlowExpression>),
    Flowing(bool),
    MusicOn(bool),
    Name(String),
    NlBr(Brightness),
    Power(bool),
}

} // verus!
