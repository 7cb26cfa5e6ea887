//! Board profiles: the hardware description a device boots with, and the
//! rules that make a profile usable with a driver catalog (ESP32-S3 with
//! 8 MB octal PSRAM, an RGB565 panel, a GT911 touch controller and a CH422G
//! expander sharing one I2C bus).
use vstd::prelude::*;
use vstd::string::StringExecFns;
use crate::text::{debug_text, push_decimal, quoted};

verus! {

#[derive(Debug, Clone, PartialEq, Eq)]
pub struct BoardProfile {
    pub schema_version: u32,
    pub id: String,
    pub name: String,
    pub chip_family: String,
    pub board_revision: Option<String>,
    pub hardware: HardwareClass,
    pub display: RgbDisplay,
    pub touch: Touch,
    pub expander: ExpanderSignals,
    pub backlight: Backlight,
    pub resources: ResourcePolicy,
    pub driver_catalog: String,
}

#[derive(Debug, Clone, PartialEq, Eq)]
pub struct HardwareClass {
    pub flash_mb: u16,
    pub psram_mb: u16,
    pub psram_mode: String,
}

#[derive(Debug, Clone, PartialEq, Eq)]
pub struct RgbDisplay {
    pub driver: String,
    pub width: u16,
    pub height: u16,
    pub color_format: String,
    pub pixel_clock_hz: u32,
    pub pclk_active_negative: bool,
    pub hsync: i16,
    pub vsync: i16,
    pub de: i16,
    pub pclk: i16,
    pub data: Vec<i16>,
    pub timing: RgbTiming,
}

#[derive(Debug, Clone, Copy, PartialEq, Eq, Structural)]
pub struct RgbTiming {
    pub h_pulse: u16,
    pub h_back: u16,
    pub h_front: u16,
    pub v_pulse: u16,
    pub v_back: u16,
    pub v_front: u16,
}

#[derive(Debug, Clone, PartialEq, Eq)]
pub struct Touch {
    pub driver: String,
    pub bus: u8,
    pub sda: i16,
    pub scl: i16,
    pub irq: i16,
    pub reset_expander: u8,
    pub swap_xy: bool,
    pub mirror_x: bool,
    pub mirror_y: bool,
}

#[derive(Debug, Clone, PartialEq, Eq)]
pub struct ExpanderSignals {
    pub driver: String,
    pub bus: u8,
    pub sda: i16,
    pub scl: i16,
    pub touch_reset: u8,
    pub backlight_enable: u8,
}

#[derive(Debug, Clone, PartialEq, Eq)]
pub struct Backlight {
    pub kind: String,
    pub enable_expander: u8,
}

#[derive(Debug, Clone, Copy, PartialEq, Eq, Structural)]
pub struct ResourcePolicy {
    pub framebuffers: u8,
    pub bounce_buffer_lines: u16,
    pub prefer_psram: bool,
}

/// The drivers a firmware build provides.
#[derive(Debug, Clone, PartialEq, Eq)]
pub struct DriverCatalog {
    pub id: String,
    display_drivers: Vec<String>,
    touch_drivers: Vec<String>,
    expander_drivers: Vec<String>,
}

/// `serde_json::Error`, carried by a profile that could not be parsed.
#[verifier::external_type_specification]
#[verifier::external_body]
pub struct ExJsonError(serde_json::Error);

/// Why a profile was refused.
#[derive(Debug)]
pub enum ProfileError {
    Parse(serde_json::Error),
    Validation(String),
}

pub open spec fn names(list: Seq<String>) -> Seq<Seq<char>> {
    list.map_values(|s: String| s@)
}

impl DriverCatalog {
    /// The catalog's identifier.
    pub closed spec fn name(&self) -> Seq<char> {
        self.id@
    }

    pub closed spec fn display(&self) -> Seq<Seq<char>> {
        names(self.display_drivers@)
    }

    pub closed spec fn touch(&self) -> Seq<Seq<char>> {
        names(self.touch_drivers@)
    }

    pub closed spec fn expander(&self) -> Seq<Seq<char>> {
        names(self.expander_drivers@)
    }

    /// The catalog of the ESP32-S3 firmware: the RGB panel, GT911 touch and
    /// CH422G expander drivers.
    pub fn esp32s3_v1() -> (catalog: DriverCatalog)
        ensures
            catalog.name() == "esp32s3-v1"@,
            catalog.display() == seq!["esp-lcd-rgb"@],
            catalog.touch() == seq!["gt911"@],
            catalog.expander() == seq!["ch422g"@],
    {
        let catalog = DriverCatalog {
            id: String::from_str("esp32s3-v1"),
            display_drivers: vec![String::from_str("esp-lcd-rgb")],
            touch_drivers: vec![String::from_str("gt911")],
            expander_drivers: vec![String::from_str("ch422g")],
        };
        assert(catalog.display() =~= seq!["esp-lcd-rgb"@]);
        assert(catalog.touch() =~= seq!["gt911"@]);
        assert(catalog.expander() =~= seq!["ch422g"@]);
        catalog
    }
}

// ---------------------------------------------------------------------
// The rules

pub open spec fn identity_ok(p: BoardProfile, catalog: DriverCatalog) -> bool {
    &&& p.schema_version == 1
    &&& p.driver_catalog@ == catalog.name()
    &&& p.chip_family@ == "esp32s3"@
}

/// The internal RAM that display buffers may take, in bytes.
pub const INTERNAL_RAM_BUDGET_BYTES: u64 = 327680;

/// Bytes of all framebuffers: two bytes (RGB565) per pixel each.
pub open spec fn framebuffer_bytes(p: BoardProfile) -> nat {
    (2 * p.display.width * p.display.height * p.resources.framebuffers) as nat
}

/// Bytes of the two bounce buffers, each `bounce_buffer_lines` rows high.
pub open spec fn bounce_buffer_bytes(p: BoardProfile) -> nat {
    (2 * 2 * p.display.width * p.resources.bounce_buffer_lines) as nat
}

/// Bytes of internal RAM the display needs: the bounce buffers, and the
/// framebuffers too unless they live in PSRAM.
pub open spec fn internal_display_bytes(p: BoardProfile) -> nat {
    bounce_buffer_bytes(p) + if p.resources.prefer_psram { 0nat } else { framebuffer_bytes(p) }
}

/// The declared PSRAM in bytes.
pub open spec fn psram_bytes(p: BoardProfile) -> nat {
    (p.hardware.psram_mb * 1048576) as nat
}

pub open spec fn hardware_ok(p: BoardProfile) -> bool {
    &&& p.hardware.flash_mb == 8
    &&& (p.resources.prefer_psram ==> framebuffer_bytes(p) <= psram_bytes(p))
    &&& p.hardware.psram_mb == 8
    &&& p.hardware.psram_mode@ == "octal"@
}

pub open spec fn drivers_ok(p: BoardProfile, catalog: DriverCatalog) -> bool {
    &&& catalog.display().contains(p.display.driver@)
    &&& catalog.touch().contains(p.touch.driver@)
    &&& catalog.expander().contains(p.expander.driver@)
}

pub open spec fn timing_ok(t: RgbTiming) -> bool {
    t.h_pulse > 0 && t.h_back > 0 && t.h_front > 0 && t.v_pulse > 0 && t.v_back > 0 && t.v_front > 0
}

pub open spec fn display_ok(p: BoardProfile) -> bool {
    &&& 1 <= p.display.width <= 800
    &&& 1 <= p.display.height <= 480
    &&& p.display.color_format@ == "rgb565"@
    &&& 1 <= p.display.pixel_clock_hz <= 21_000_000
    &&& p.display.data@.len() == 16
    &&& timing_ok(p.display.timing)
}

pub open spec fn resources_ok(p: BoardProfile) -> bool {
    &&& 1 <= p.resources.framebuffers <= 2
    &&& 1 <= p.resources.bounce_buffer_lines <= 80
    &&& internal_display_bytes(p) <= INTERNAL_RAM_BUDGET_BYTES
    &&& (p.display.width != 800 || p.display.height != 480 || p.resources.prefer_psram)
}

/// Every GPIO a profile assigns, in order: the four panel control lines,
/// the data lines, then touch SDA, SCL and IRQ.
pub open spec fn gpio_pins(p: BoardProfile) -> Seq<i16> {
    seq![p.display.hsync, p.display.vsync, p.display.de, p.display.pclk] + p.display.data@ + seq![
        p.touch.sda,
        p.touch.scl,
        p.touch.irq,
    ]
}

/// GPIO 0 to 48 exist; 26 to 37 serve the flash and PSRAM.
pub open spec fn pin_available(pin: i16) -> bool {
    0 <= pin <= 48 && !(26 <= pin <= 37)
}

pub open spec fn gpio_ok(p: BoardProfile) -> bool {
    let pins = gpio_pins(p);
    &&& forall|i: int| 0 <= i < pins.len() ==> pin_available(#[trigger] pins[i])
    &&& forall|i: int, j: int| 0 <= i < j < pins.len() ==> pins[i] != pins[j]
}

/// Touch and expander share one supported I2C bus (0 or 1) on the same
/// pins, the expander outputs are CH422G outputs 0 to 5, and the signals
/// declared on each side agree.
pub open spec fn shared_ok(p: BoardProfile) -> bool {
    &&& p.touch.bus <= 1
    &&& p.expander.bus <= 1
    &&& p.touch.reset_expander <= 5
    &&& p.expander.touch_reset <= 5
    &&& p.backlight.enable_expander <= 5
    &&& p.expander.backlight_enable <= 5
    &&& p.touch.bus == p.expander.bus
    &&& p.touch.sda == p.expander.sda
    &&& p.touch.scl == p.expander.scl
    &&& p.touch.reset_expander == p.expander.touch_reset
    &&& p.backlight.enable_expander == p.expander.backlight_enable
    &&& p.expander.touch_reset != p.expander.backlight_enable
    &&& p.backlight.kind@ == "binary"@
}

/// A profile the firmware can run with.
pub open spec fn profile_valid(p: BoardProfile, catalog: DriverCatalog) -> bool {
    &&& identity_ok(p, catalog)
    &&& hardware_ok(p)
    &&& drivers_ok(p, catalog)
    &&& display_ok(p)
    &&& resources_ok(p)
    &&& gpio_ok(p)
    &&& shared_ok(p)
}

// ---------------------------------------------------------------------
// Messages

/// `Display` of `serde_json::Error`: its message with line and column.
#[verifier::external_body]
fn json_error_text(error: &serde_json::Error) -> String {
    format!("{error}")
}

impl ProfileError {
    /// The error as a sentence: which stage refused the profile, then why.
    pub fn to_string(&self) -> (text: String)
        ensures
            self matches ProfileError::Validation(message) ==> text@ == "board profile validation error: "@ + message@,
            self is Parse ==> "board profile JSON parse error: "@.len() <= text@.len() && text@.take(
                "board profile JSON parse error: "@.len() as int,
            ) == "board profile JSON parse error: "@,
    {
        match self {
            ProfileError::Parse(error) => {
                let mut text = String::from_str("board profile JSON parse error: ");
                let ghost prefix = text@;
                text.append(json_error_text(error).as_str());
                assert(text@.take(prefix.len() as int) =~= prefix);
                text
            },
            ProfileError::Validation(message) => {
                let mut text = String::from_str("board profile validation error: ");
                text.append(message.as_str());
                assert(text@ =~= "board profile validation error: "@ + message@);
                text
            },
        }
    }
}

pub open spec fn signed_text(n: i16) -> Seq<char> {
    if n < 0 {
        "-"@ + crate::text::decimal((-n) as nat)
    } else {
        crate::text::decimal(n as nat)
    }
}

fn push_signed(out: &mut String, n: i16)
    ensures
        final(out)@ == old(out)@ + signed_text(n),
{
    if n < 0 {
        out.append("-");
        push_decimal(out, (-(n as i32)) as u64);
        assert(out@ =~= old(out)@ + signed_text(n));
    } else {
        push_decimal(out, n as u64);
    }
}

fn same_text(value: &String, expected: &str) -> (same: bool)
    ensures
        same == (value@ == expected@),
{
    let expected = String::from_str(expected);
    *value == expected
}

fn listed(list: &Vec<String>, name: &String) -> (found: bool)
    ensures
        found == names(list@).contains(name@),
{
    let mut i: usize = 0;
    while i < list.len()
        invariant
            i <= list@.len(),
            forall|j: int| 0 <= j < i ==> list@[j]@ != name@,
        decreases list@.len() - i,
    {
        if list[i] == *name {
            assert(names(list@)[i as int] == name@);
            return true;
        }
        i = i + 1;
    }
    assert forall|j: int| 0 <= j < names(list@).len() implies names(list@)[j] != name@ by {
        assert(names(list@)[j] == list@[j]@);
    }
    false
}

// ---------------------------------------------------------------------
// Which rule is reported first

pub open spec fn identity_fault(p: BoardProfile, catalog: DriverCatalog) -> Option<Seq<char>> {
    if p.schema_version != 1 {
        Some("unsupported schema version "@ + crate::text::decimal(p.schema_version as nat) + "; expected 1"@)
    } else if p.driver_catalog@ != catalog.name() {
        Some("unknown driver catalog "@ + debug_text(p.driver_catalog@) + "; expected "@ + debug_text(catalog.name()))
    } else if p.chip_family@ != "esp32s3"@ {
        Some("unsupported chip family "@ + debug_text(p.chip_family@))
    } else {
        None
    }
}

pub open spec fn hardware_fault(p: BoardProfile) -> Option<Seq<char>> {
    if p.hardware.flash_mb != 8 {
        Some("flash size mismatch: "@ + crate::text::decimal(p.hardware.flash_mb as nat) + " MB; expected 8 MB"@)
    } else if p.resources.prefer_psram && framebuffer_bytes(p) > psram_bytes(p) {
        Some("framebuffers need "@ + crate::text::decimal(framebuffer_bytes(p)) + " bytes, which exceeds declared PSRAM of "@
            + crate::text::decimal(p.hardware.psram_mb as nat) + " MB"@)
    } else if p.hardware.psram_mb != 8 {
        Some("PSRAM size mismatch: "@ + crate::text::decimal(p.hardware.psram_mb as nat) + " MB; expected 8 MB"@)
    } else if p.hardware.psram_mode@ != "octal"@ {
        Some("PSRAM mode "@ + debug_text(p.hardware.psram_mode@) + " is unsupported; expected octal"@)
    } else {
        None
    }
}

pub open spec fn drivers_fault(p: BoardProfile, catalog: DriverCatalog) -> Option<Seq<char>> {
    if !catalog.display().contains(p.display.driver@) {
        Some("unavailable display driver "@ + debug_text(p.display.driver@))
    } else if !catalog.touch().contains(p.touch.driver@) {
        Some("unavailable touch driver "@ + debug_text(p.touch.driver@))
    } else if !catalog.expander().contains(p.expander.driver@) {
        Some("unavailable expander driver "@ + debug_text(p.expander.driver@))
    } else {
        None
    }
}

pub open spec fn display_fault(p: BoardProfile) -> Option<Seq<char>> {
    let d = p.display;
    let t = d.timing;
    if !(1 <= d.width <= 800) {
        Some("display width "@ + crate::text::decimal(d.width as nat) + " is outside 1..=800"@)
    } else if !(1 <= d.height <= 480) {
        Some("display height "@ + crate::text::decimal(d.height as nat) + " is outside 1..=480"@)
    } else if d.color_format@ != "rgb565"@ {
        Some("unsupported color format "@ + debug_text(d.color_format@) + "; expected rgb565"@)
    } else if !(1 <= d.pixel_clock_hz <= 21_000_000) {
        Some("pixel clock "@ + crate::text::decimal(d.pixel_clock_hz as nat) + " Hz is outside the safe range 1..=21000000 Hz"@)
    } else if d.data@.len() != 16 {
        Some("rgb565 requires 16 RGB data pins; found "@ + crate::text::decimal(d.data@.len()))
    } else if t.h_pulse == 0 {
        Some("display timing hPulse must be non-zero"@)
    } else if t.h_back == 0 {
        Some("display timing hBack must be non-zero"@)
    } else if t.h_front == 0 {
        Some("display timing hFront must be non-zero"@)
    } else if t.v_pulse == 0 {
        Some("display timing vPulse must be non-zero"@)
    } else if t.v_back == 0 {
        Some("display timing vBack must be non-zero"@)
    } else if t.v_front == 0 {
        Some("display timing vFront must be non-zero"@)
    } else {
        None
    }
}

pub open spec fn resources_fault(p: BoardProfile) -> Option<Seq<char>> {
    let r = p.resources;
    if !(1 <= r.framebuffers <= 2) {
        Some("framebuffers "@ + crate::text::decimal(r.framebuffers as nat) + " is outside 1..=2"@)
    } else if !(1 <= r.bounce_buffer_lines <= 80) {
        Some("bounce buffer lines "@ + crate::text::decimal(r.bounce_buffer_lines as nat) + " is outside 1..=80"@)
    } else if internal_display_bytes(p) > INTERNAL_RAM_BUDGET_BYTES {
        Some("display buffers need "@ + crate::text::decimal(internal_display_bytes(p))
            + " bytes of internal RAM, over the budget of "@ + crate::text::decimal(INTERNAL_RAM_BUDGET_BYTES as nat)
            + " bytes; prefer PSRAM for the framebuffers"@)
    } else if p.display.width == 800 && p.display.height == 480 && !r.prefer_psram {
        Some("PSRAM must be preferred for an 800x480 display"@)
    } else {
        None
    }
}

/// The name under which the `k`-th GPIO is assigned.
pub open spec fn pin_name(k: int) -> Seq<char> {
    if k == 0 {
        "display.hsync"@
    } else if k == 1 {
        "display.vsync"@
    } else if k == 2 {
        "display.de"@
    } else if k == 3 {
        "display.pclk"@
    } else if k < 20 {
        "display.data["@ + crate::text::decimal((k - 4) as nat) + "]"@
    } else if k == 20 {
        "touch.sda"@
    } else if k == 21 {
        "touch.scl"@
    } else {
        "touch.irq"@
    }
}

/// The report for the `k`-th GPIO when it is unavailable or already taken
/// by an earlier one.
pub open spec fn pin_fault(p: BoardProfile, k: int) -> Option<Seq<char>> {
    let pins = gpio_pins(p);
    let pin = pins[k];
    if !pin_available(pin) {
        Some("GPIO "@ + signed_text(pin) + " assigned to "@ + pin_name(k) + " is unavailable on ESP32-S3 N8R8"@)
    } else if exists|j: int| 0 <= j < k && pins[j] == pin {
        let j = choose|j: int| 0 <= j < k && pins[j] == pin;
        Some("GPIO "@ + signed_text(pin) + " is assigned to both "@ + pin_name(j) + " and "@ + pin_name(k))
    } else {
        None
    }
}

/// The first GPIO from `k` on with a fault.
pub open spec fn gpio_fault_from(p: BoardProfile, k: int) -> Option<Seq<char>>
    decreases 23 - k,
{
    if k < 0 || k >= 23 {
        None
    } else {
        match pin_fault(p, k) {
            Some(text) => Some(text),
            None => gpio_fault_from(p, k + 1),
        }
    }
}

pub open spec fn shared_fault(p: BoardProfile) -> Option<Seq<char>> {
    let touch = p.touch;
    let expander = p.expander;
    if touch.bus > 1 {
        Some("unsupported I2C bus "@ + crate::text::decimal(touch.bus as nat) + " for touch; expected 0 or 1"@)
    } else if expander.bus > 1 {
        Some("unsupported I2C bus "@ + crate::text::decimal(expander.bus as nat) + " for expander; expected 0 or 1"@)
    } else if touch.reset_expander > 5 {
        Some("touch reset uses expander output "@ + crate::text::decimal(touch.reset_expander as nat) + "; expected 0..=5"@)
    } else if expander.touch_reset > 5 {
        Some("expander touch reset uses expander output "@ + crate::text::decimal(expander.touch_reset as nat) + "; expected 0..=5"@)
    } else if p.backlight.enable_expander > 5 {
        Some("backlight uses expander output "@ + crate::text::decimal(p.backlight.enable_expander as nat) + "; expected 0..=5"@)
    } else if expander.backlight_enable > 5 {
        Some("expander backlight enable uses expander output "@ + crate::text::decimal(expander.backlight_enable as nat) + "; expected 0..=5"@)
    } else if touch.bus != expander.bus {
        Some("I2C bus mismatch: touch uses "@ + crate::text::decimal(touch.bus as nat) + " but expander uses "@
            + crate::text::decimal(expander.bus as nat))
    } else if touch.sda != expander.sda || touch.scl != expander.scl {
        Some("I2C pin mismatch: touch uses SDA"@ + signed_text(touch.sda) + "/SCL"@ + signed_text(touch.scl)
            + " but expander uses SDA"@ + signed_text(expander.sda) + "/SCL"@ + signed_text(expander.scl))
    } else if touch.reset_expander != expander.touch_reset {
        Some("touch reset signal mismatch: touch uses "@ + crate::text::decimal(touch.reset_expander as nat)
            + " but expander declares "@ + crate::text::decimal(expander.touch_reset as nat))
    } else if p.backlight.enable_expander != expander.backlight_enable {
        Some("backlight signal mismatch: backlight uses "@ + crate::text::decimal(p.backlight.enable_expander as nat)
            + " but expander declares "@ + crate::text::decimal(expander.backlight_enable as nat))
    } else if expander.touch_reset == expander.backlight_enable {
        Some("expander touch reset and backlight signals must be distinct"@)
    } else if p.backlight.kind@ != "binary"@ {
        Some("unsupported backlight kind "@ + debug_text(p.backlight.kind@))
    } else {
        None
    }
}

/// The message of the first broken rule, in the order of the checks:
/// identity and catalog, hardware, drivers, display, resources, GPIO
/// assignments, shared signals.
pub open spec fn profile_fault(p: BoardProfile, catalog: DriverCatalog) -> Option<Seq<char>> {
    if identity_fault(p, catalog) is Some {
        identity_fault(p, catalog)
    } else if hardware_fault(p) is Some {
        hardware_fault(p)
    } else if drivers_fault(p, catalog) is Some {
        drivers_fault(p, catalog)
    } else if display_fault(p) is Some {
        display_fault(p)
    } else if resources_fault(p) is Some {
        resources_fault(p)
    } else if gpio_fault_from(p, 0) is Some {
        gpio_fault_from(p, 0)
    } else {
        shared_fault(p)
    }
}

/// `r` is `Ok` when there is no fault, and otherwise the validation error
/// carrying the fault's message.
pub open spec fn answers(r: Result<(), ProfileError>, fault: Option<Seq<char>>) -> bool {
    match r {
        Ok(()) => fault is None,
        Err(ProfileError::Validation(message)) => fault == Some(message@),
        Err(ProfileError::Parse(_)) => false,
    }
}

proof fn lemma_gpio_fault_from(p: BoardProfile, k: int)
    requires
        0 <= k <= 23,
        p.display.data@.len() == 16,
        forall|i: int, j: int| 0 <= i < j < k ==> gpio_pins(p)[i] != gpio_pins(p)[j],
    ensures
        gpio_fault_from(p, k) is None <==> {
            &&& forall|i: int| k <= i < 23 ==> pin_available(#[trigger] gpio_pins(p)[i])
            &&& forall|i: int, j: int| 0 <= i < j < 23 && k <= j ==> gpio_pins(p)[i] != gpio_pins(p)[j]
        },
    decreases 23 - k,
{
    let pins = gpio_pins(p);
    if k < 23 {
        if pin_fault(p, k) is None {
            assert forall|i: int, j: int| 0 <= i < j < k + 1 implies pins[i] != pins[j] by {
                if j == k {
                    if pins[i] == pins[j] {
                        assert(exists|j2: int| 0 <= j2 < k && pins[j2] == pins[k]);
                    }
                }
            }
            lemma_gpio_fault_from(p, k + 1);
        } else {
            if !pin_available(pins[k]) {
            } else {
                let j = choose|j: int| 0 <= j < k && pins[j] == pins[k];
                assert(pins[j] == pins[k]);
            }
        }
    }
}

proof fn lemma_profile_fault(p: BoardProfile, catalog: DriverCatalog)
    ensures
        profile_fault(p, catalog) is None <==> profile_valid(p, catalog),
{
    if identity_fault(p, catalog) is None && hardware_fault(p) is None && drivers_fault(p, catalog) is None
        && display_fault(p) is None && resources_fault(p) is None {
        lemma_gpio_fault_from(p, 0);
    }
}

proof fn lemma_gpio_prefix(p: BoardProfile, k: int)
    ensures
        gpio_fault_from(p, k) matches Some(m) ==> 5 <= m.len() && m.take(5) == "GPIO "@,
    decreases 23 - k,
{
    reveal_strlit("GPIO ");
    if 0 <= k < 23 {
        match pin_fault(p, k) {
            Some(m) => {
                let pins = gpio_pins(p);
                let pin = pins[k];
                if !pin_available(pin) {
                    let tail = signed_text(pin) + " assigned to "@ + pin_name(k) + " is unavailable on ESP32-S3 N8R8"@;
                    assert(m =~= "GPIO "@ + tail);
                    assert(("GPIO "@ + tail).take(5) =~= "GPIO "@);
                } else {
                    let j = choose|j: int| 0 <= j < k && pins[j] == pin;
                    let tail = signed_text(pin) + " is assigned to both "@ + pin_name(j) + " and "@ + pin_name(k);
                    assert(m =~= "GPIO "@ + tail);
                    assert(("GPIO "@ + tail).take(5) =~= "GPIO "@);
                }
            },
            None => lemma_gpio_prefix(p, k + 1),
        }
    }
}

/// For a profile that passes every other rule, validation succeeds exactly
/// when every assigned GPIO is usable on the chip and no two signals share
/// one; otherwise its message begins with `GPIO `.
pub proof fn lemma_gpio_rule(p: BoardProfile, catalog: DriverCatalog)
    requires
        identity_fault(p, catalog) is None,
        hardware_fault(p) is None,
        drivers_fault(p, catalog) is None,
        display_fault(p) is None,
        resources_fault(p) is None,
        shared_fault(p) is None,
    ensures
        profile_fault(p, catalog) is None <==> gpio_ok(p),
        profile_fault(p, catalog) matches Some(m) ==> 5 <= m.len() && m.take(5) == "GPIO "@,
{
    lemma_gpio_fault_from(p, 0);
    lemma_gpio_prefix(p, 0);
}

// ---------------------------------------------------------------------
// Checking

fn invalid(message: String) -> (error: ProfileError)
    ensures
        error == ProfileError::Validation(message),
{
    ProfileError::Validation(message)
}

impl BoardProfile {
    fn check_identity(&self, catalog: &DriverCatalog) -> (r: Result<(), ProfileError>)
        ensures
            answers(r, identity_fault(*self, *catalog)),
    {
        if self.schema_version != 1 {
            return Err(schema_fault(self.schema_version as u64));
        }
        if self.driver_catalog != catalog.id {
            let mut m = String::from_str("unknown driver catalog ");
            m.append(quoted(self.driver_catalog.as_str()).as_str());
            m.append("; expected ");
            m.append(quoted(catalog.id.as_str()).as_str());
            return Err(invalid(m));
        }
        if !same_text(&self.chip_family, "esp32s3") {
            let mut m = String::from_str("unsupported chip family ");
            m.append(quoted(self.chip_family.as_str()).as_str());
            return Err(invalid(m));
        }
        Ok(())
    }

    /// Bytes of all framebuffers.
    fn framebuffer_bytes(&self) -> (bytes: u64)
        ensures
            bytes == framebuffer_bytes(*self),
            bytes <= 2 * 65535 * 65535 * 255,
    {
        let w = self.display.width as u64;
        let h = self.display.height as u64;
        let f = self.resources.framebuffers as u64;
        assert(2 * w * h * f <= 2 * 65535 * 65535 * 255) by (nonlinear_arith)
            requires
                w <= 65535,
                h <= 65535,
                f <= 255,
        ;
        assert(2 * w * h <= 2 * 65535 * 65535) by (nonlinear_arith)
            requires
                w <= 65535,
                h <= 65535,
        ;
        2 * w * h * f
    }

    fn check_hardware(&self) -> (r: Result<(), ProfileError>)
        ensures
            answers(r, hardware_fault(*self)),
    {
        if self.hardware.flash_mb != 8 {
            let mut m = String::from_str("flash size mismatch: ");
            push_decimal(&mut m, self.hardware.flash_mb as u64);
            m.append(" MB; expected 8 MB");
            return Err(invalid(m));
        }
        let framebuffers = self.framebuffer_bytes();
        let psram = (self.hardware.psram_mb as u64) * 1048576;
        if self.resources.prefer_psram && framebuffers > psram {
            let mut m = String::from_str("framebuffers need ");
            push_decimal(&mut m, framebuffers);
            m.append(" bytes, which exceeds declared PSRAM of ");
            push_decimal(&mut m, self.hardware.psram_mb as u64);
            m.append(" MB");
            return Err(invalid(m));
        }
        if self.hardware.psram_mb != 8 {
            let mut m = String::from_str("PSRAM size mismatch: ");
            push_decimal(&mut m, self.hardware.psram_mb as u64);
            m.append(" MB; expected 8 MB");
            return Err(invalid(m));
        }
        if !same_text(&self.hardware.psram_mode, "octal") {
            let mut m = String::from_str("PSRAM mode ");
            m.append(quoted(self.hardware.psram_mode.as_str()).as_str());
            m.append(" is unsupported; expected octal");
            return Err(invalid(m));
        }
        Ok(())
    }

    fn check_drivers(&self, catalog: &DriverCatalog) -> (r: Result<(), ProfileError>)
        ensures
            answers(r, drivers_fault(*self, *catalog)),
    {
        if !listed(&catalog.display_drivers, &self.display.driver) {
            let mut m = String::from_str("unavailable display driver ");
            m.append(quoted(self.display.driver.as_str()).as_str());
            return Err(invalid(m));
        }
        if !listed(&catalog.touch_drivers, &self.touch.driver) {
            let mut m = String::from_str("unavailable touch driver ");
            m.append(quoted(self.touch.driver.as_str()).as_str());
            return Err(invalid(m));
        }
        if !listed(&catalog.expander_drivers, &self.expander.driver) {
            let mut m = String::from_str("unavailable expander driver ");
            m.append(quoted(self.expander.driver.as_str()).as_str());
            return Err(invalid(m));
        }
        Ok(())
    }

    fn check_display(&self) -> (r: Result<(), ProfileError>)
        ensures
            answers(r, display_fault(*self)),
    {
        let display = &self.display;
        if display.width < 1 || display.width > 800 {
            let mut m = String::from_str("display width ");
            push_decimal(&mut m, display.width as u64);
            m.append(" is outside 1..=800");
            return Err(invalid(m));
        }
        if display.height < 1 || display.height > 480 {
            let mut m = String::from_str("display height ");
            push_decimal(&mut m, display.height as u64);
            m.append(" is outside 1..=480");
            return Err(invalid(m));
        }
        if !same_text(&display.color_format, "rgb565") {
            let mut m = String::from_str("unsupported color format ");
            m.append(quoted(display.color_format.as_str()).as_str());
            m.append("; expected rgb565");
            return Err(invalid(m));
        }
        if display.pixel_clock_hz < 1 || display.pixel_clock_hz > 21_000_000 {
            let mut m = String::from_str("pixel clock ");
            push_decimal(&mut m, display.pixel_clock_hz as u64);
            m.append(" Hz is outside the safe range 1..=21000000 Hz");
            return Err(invalid(m));
        }
        if display.data.len() != 16 {
            let mut m = String::from_str("rgb565 requires 16 RGB data pins; found ");
            push_decimal(&mut m, display.data.len() as u64);
            return Err(invalid(m));
        }
        let timing = display.timing;
        if timing.h_pulse == 0 {
            return Err(invalid(String::from_str("display timing hPulse must be non-zero")));
        }
        if timing.h_back == 0 {
            return Err(invalid(String::from_str("display timing hBack must be non-zero")));
        }
        if timing.h_front == 0 {
            return Err(invalid(String::from_str("display timing hFront must be non-zero")));
        }
        if timing.v_pulse == 0 {
            return Err(invalid(String::from_str("display timing vPulse must be non-zero")));
        }
        if timing.v_back == 0 {
            return Err(invalid(String::from_str("display timing vBack must be non-zero")));
        }
        if timing.v_front == 0 {
            return Err(invalid(String::from_str("display timing vFront must be non-zero")));
        }
        Ok(())
    }

    fn check_resources(&self) -> (r: Result<(), ProfileError>)
        ensures
            answers(r, resources_fault(*self)),
    {
        let resources = self.resources;
        if resources.framebuffers < 1 || resources.framebuffers > 2 {
            let mut m = String::from_str("framebuffers ");
            push_decimal(&mut m, resources.framebuffers as u64);
            m.append(" is outside 1..=2");
            return Err(invalid(m));
        }
        if resources.bounce_buffer_lines < 1 || resources.bounce_buffer_lines > 80 {
            let mut m = String::from_str("bounce buffer lines ");
            push_decimal(&mut m, resources.bounce_buffer_lines as u64);
            m.append(" is outside 1..=80");
            return Err(invalid(m));
        }
        let w = self.display.width as u64;
        let lines = resources.bounce_buffer_lines as u64;
        assert(w * lines <= 65535 * 80) by (nonlinear_arith)
            requires
                w <= 65535,
                lines <= 80,
        ;
        let area = w * lines;
        let bounce = area * 4;
        assert(bounce == 2 * 2 * self.display.width * resources.bounce_buffer_lines) by (nonlinear_arith)
            requires
                bounce == area * 4,
                area == w * lines,
                w == self.display.width,
                lines == resources.bounce_buffer_lines,
        ;
        let internal = if resources.prefer_psram {
            bounce
        } else {
            bounce + self.framebuffer_bytes()
        };
        if internal > INTERNAL_RAM_BUDGET_BYTES {
            let mut m = String::from_str("display buffers need ");
            push_decimal(&mut m, internal);
            m.append(" bytes of internal RAM, over the budget of ");
            push_decimal(&mut m, INTERNAL_RAM_BUDGET_BYTES);
            m.append(" bytes; prefer PSRAM for the framebuffers");
            return Err(invalid(m));
        }
        if self.display.width == 800 && self.display.height == 480 && !resources.prefer_psram {
            return Err(invalid(String::from_str("PSRAM must be preferred for an 800x480 display")));
        }
        Ok(())
    }

    fn check_shared_signals(&self) -> (r: Result<(), ProfileError>)
        ensures
            answers(r, shared_fault(*self)),
    {
        let touch = &self.touch;
        let expander = &self.expander;
        if touch.bus > 1 {
            let mut m = String::from_str("unsupported I2C bus ");
            push_decimal(&mut m, touch.bus as u64);
            m.append(" for touch; expected 0 or 1");
            return Err(invalid(m));
        }
        if expander.bus > 1 {
            let mut m = String::from_str("unsupported I2C bus ");
            push_decimal(&mut m, expander.bus as u64);
            m.append(" for expander; expected 0 or 1");
            return Err(invalid(m));
        }
        if touch.reset_expander > 5 {
            let mut m = String::from_str("touch reset uses expander output ");
            push_decimal(&mut m, touch.reset_expander as u64);
            m.append("; expected 0..=5");
            return Err(invalid(m));
        }
        if expander.touch_reset > 5 {
            let mut m = String::from_str("expander touch reset uses expander output ");
            push_decimal(&mut m, expander.touch_reset as u64);
            m.append("; expected 0..=5");
            return Err(invalid(m));
        }
        if self.backlight.enable_expander > 5 {
            let mut m = String::from_str("backlight uses expander output ");
            push_decimal(&mut m, self.backlight.enable_expander as u64);
            m.append("; expected 0..=5");
            return Err(invalid(m));
        }
        if expander.backlight_enable > 5 {
            let mut m = String::from_str("expander backlight enable uses expander output ");
            push_decimal(&mut m, expander.backlight_enable as u64);
            m.append("; expected 0..=5");
            return Err(invalid(m));
        }
        if touch.bus != expander.bus {
            let mut m = String::from_str("I2C bus mismatch: touch uses ");
            push_decimal(&mut m, touch.bus as u64);
            m.append(" but expander uses ");
            push_decimal(&mut m, expander.bus as u64);
            return Err(invalid(m));
        }
        if touch.sda != expander.sda || touch.scl != expander.scl {
            let mut m = String::from_str("I2C pin mismatch: touch uses SDA");
            push_signed(&mut m, touch.sda);
            m.append("/SCL");
            push_signed(&mut m, touch.scl);
            m.append(" but expander uses SDA");
            push_signed(&mut m, expander.sda);
            m.append("/SCL");
            push_signed(&mut m, expander.scl);
            return Err(invalid(m));
        }
        if touch.reset_expander != expander.touch_reset {
            let mut m = String::from_str("touch reset signal mismatch: touch uses ");
            push_decimal(&mut m, touch.reset_expander as u64);
            m.append(" but expander declares ");
            push_decimal(&mut m, expander.touch_reset as u64);
            return Err(invalid(m));
        }
        if self.backlight.enable_expander != expander.backlight_enable {
            let mut m = String::from_str("backlight signal mismatch: backlight uses ");
            push_decimal(&mut m, self.backlight.enable_expander as u64);
            m.append(" but expander declares ");
            push_decimal(&mut m, expander.backlight_enable as u64);
            return Err(invalid(m));
        }
        if expander.touch_reset == expander.backlight_enable {
            return Err(invalid(String::from_str("expander touch reset and backlight signals must be distinct")));
        }
        if !same_text(&self.backlight.kind, "binary") {
            let mut m = String::from_str("unsupported backlight kind ");
            m.append(quoted(self.backlight.kind.as_str()).as_str());
            return Err(invalid(m));
        }
        Ok(())
    }

    fn pin_label(k: usize) -> (label: String)
        requires
            4 <= k < 20,
        ensures
            label@ == pin_name(k as int),
    {
        let mut label = String::from_str("display.data[");
        push_decimal(&mut label, (k - 4) as u64);
        label.append("]");
        label
    }

    fn check_gpio(&self) -> (r: Result<(), ProfileError>)
        requires
            self.display.data@.len() == 16,
        ensures
            answers(r, gpio_fault_from(*self, 0)),
    {
        let ghost pins = gpio_pins(*self);
        let mut assigned: Vec<(i16, String)> = Vec::new();
        let mut k: usize = 0;
        while k < 23
            invariant
                pins == gpio_pins(*self),
                pins.len() == 23,
                self.display.data@.len() == 16,
                k <= 23,
                assigned@.len() == k,
                forall|i: int| 0 <= i < k ==> (#[trigger] assigned@[i]).0 == pins[i] && assigned@[i].1@ == pin_name(i),
                forall|i: int, j: int| 0 <= i < j < k ==> pins[i] != pins[j],
                gpio_fault_from(*self, 0) == gpio_fault_from(*self, k as int),
            decreases 23 - k,
        {
            let (pin, name) = if k == 0 {
                (self.display.hsync, String::from_str("display.hsync"))
            } else if k == 1 {
                (self.display.vsync, String::from_str("display.vsync"))
            } else if k == 2 {
                (self.display.de, String::from_str("display.de"))
            } else if k == 3 {
                (self.display.pclk, String::from_str("display.pclk"))
            } else if k < 20 {
                (self.display.data[k - 4], Self::pin_label(k))
            } else if k == 20 {
                (self.touch.sda, String::from_str("touch.sda"))
            } else if k == 21 {
                (self.touch.scl, String::from_str("touch.scl"))
            } else {
                (self.touch.irq, String::from_str("touch.irq"))
            };
            assert(pin == pins[k as int]);
            assert(name@ == pin_name(k as int));
            if !(0 <= pin && pin <= 48 && !(26 <= pin && pin <= 37)) {
                let mut m = String::from_str("GPIO ");
                push_signed(&mut m, pin);
                m.append(" assigned to ");
                m.append(name.as_str());
                m.append(" is unavailable on ESP32-S3 N8R8");
                return Err(invalid(m));
            }
            let mut i: usize = 0;
            while i < assigned.len()
                invariant
                    i <= assigned@.len(),
                    pins == gpio_pins(*self),
                    pins.len() == 23,
                    k < 23,
                    assigned@.len() == k,
                    pin == pins[k as int],
                    name@ == pin_name(k as int),
                    pin_available(pin),
                    forall|a: int, b: int| 0 <= a < b < k ==> pins[a] != pins[b],
                    gpio_fault_from(*self, 0) == gpio_fault_from(*self, k as int),
                    forall|j: int| 0 <= j < k ==> (#[trigger] assigned@[j]).0 == pins[j] && assigned@[j].1@ == pin_name(j),
                    forall|j: int| 0 <= j < i ==> (#[trigger] assigned@[j]).0 != pin,
                decreases assigned@.len() - i,
            {
                if assigned[i].0 == pin {
                    assert(assigned@[i as int].0 == pins[i as int]);
                    let ghost j = choose|j: int| 0 <= j < k && pins[j] == pin;
                    assert(j == i as int) by {
                        if j < i as int {
                            assert(assigned@[j].0 == pins[j]);
                        } else if j > i as int {
                            assert(pins[i as int] != pins[j]);
                        }
                    }
                    let mut m = String::from_str("GPIO ");
                    push_signed(&mut m, pin);
                    m.append(" is assigned to both ");
                    m.append(assigned[i].1.as_str());
                    m.append(" and ");
                    m.append(name.as_str());
                    assert(pin_fault(*self, k as int) == Some(m@));
                    return Err(invalid(m));
                }
                i = i + 1;
            }
            assert(forall|j: int| 0 <= j < k ==> pins[j] != pins[k as int]) by {
                assert forall|j: int| 0 <= j < k implies pins[j] != pins[k as int] by {
                    assert(assigned@[j].0 == pins[j]);
                }
            }
            assert(pin_fault(*self, k as int) is None);
            assigned.push((pin, name));
            k = k + 1;
        }
        Ok(())
    }

    /// Checks every rule of a usable profile; the first broken rule is
    /// reported as a `Validation` error with its message.
    pub fn validate(&self, catalog: &DriverCatalog) -> (r: Result<(), ProfileError>)
        ensures
            r is Ok <==> profile_valid(*self, *catalog),
            answers(r, profile_fault(*self, *catalog)),
    {
        proof {
            lemma_profile_fault(*self, *catalog);
        }
        self.check_identity(catalog)?;
        self.check_hardware()?;
        self.check_drivers(catalog)?;
        self.check_display()?;
        self.check_resources()?;
        self.check_gpio()?;
        self.check_shared_signals()?;
        Ok(())
    }
}

fn schema_fault(version: u64) -> (error: ProfileError)
    ensures
        error matches ProfileError::Validation(m) && m@ == "unsupported schema version "@ + crate::text::decimal(
            version as nat,
        ) + "; expected 1"@,
{
    let mut m = String::from_str("unsupported schema version ");
    push_decimal(&mut m, version);
    m.append("; expected 1");
    invalid(m)
}

/// Profiles of another schema version are refused before their fields
/// are read.
pub fn schema_version_check(version: u64) -> (r: Result<(), ProfileError>)
    ensures
        r is Ok <==> version == 1,
        r matches Err(ProfileError::Validation(m)) && m@ == "unsupported schema version "@ + crate::text::decimal(
            version as nat,
        ) + "; expected 1"@ || r is Ok,
{
    if version != 1 {
        return Err(schema_fault(version));
    }
    Ok(())
}

} // verus!
