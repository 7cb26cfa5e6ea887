use micro_platform::board::{
    Backlight, BoardProfile, DriverCatalog, ExpanderSignals, HardwareClass, ProfileError,
    ResourcePolicy, RgbDisplay, RgbTiming, Touch,
};

fn catalog() -> DriverCatalog {
    DriverCatalog::esp32s3_v1()
}

/// The Spotpear ESP32-S3 Touch LCD 7 V1.2 (N8R8) preset.
fn preset() -> BoardProfile {
    BoardProfile {
        schema_version: 1,
        id: "spotpear-esp32s3-touch-lcd-7-v1.2-n8r8".to_owned(),
        name: "Spotpear ESP32-S3 Touch LCD 7 V1.2".to_owned(),
        chip_family: "esp32s3".to_owned(),
        board_revision: Some("1.2".to_owned()),
        hardware: HardwareClass {
            flash_mb: 8,
            psram_mb: 8,
            psram_mode: "octal".to_owned(),
        },
        display: RgbDisplay {
            driver: "esp-lcd-rgb".to_owned(),
            width: 800,
            height: 480,
            color_format: "rgb565".to_owned(),
            pixel_clock_hz: 16_000_000,
            pclk_active_negative: true,
            hsync: 46,
            vsync: 3,
            de: 5,
            pclk: 7,
            data: vec![14, 38, 18, 17, 10, 39, 0, 45, 48, 47, 21, 1, 2, 42, 41, 40],
            timing: RgbTiming {
                h_pulse: 4,
                h_back: 8,
                h_front: 8,
                v_pulse: 4,
                v_back: 8,
                v_front: 8,
            },
        },
        touch: Touch {
            driver: "gt911".to_owned(),
            bus: 0,
            sda: 8,
            scl: 9,
            irq: 4,
            reset_expander: 1,
            swap_xy: false,
            mirror_x: false,
            mirror_y: false,
        },
        expander: ExpanderSignals {
            driver: "ch422g".to_owned(),
            bus: 0,
            sda: 8,
            scl: 9,
            touch_reset: 1,
            backlight_enable: 2,
        },
        backlight: Backlight {
            kind: "binary".to_owned(),
            enable_expander: 2,
        },
        resources: ResourcePolicy {
            framebuffers: 2,
            bounce_buffer_lines: 10,
            prefer_psram: true,
        },
        driver_catalog: "esp32s3-v1".to_owned(),
    }
}

fn parse_and_validate(profile: BoardProfile) -> Result<(), ProfileError> {
    profile.validate(&catalog())
}

fn validation_message(profile: BoardProfile) -> String {
    match parse_and_validate(profile) {
        Ok(()) => panic!("mutated profile should be rejected"),
        Err(error) => error.to_string(),
    }
}

fn mutated(change: impl Fn(&mut BoardProfile)) -> BoardProfile {
    let mut profile = preset();
    change(&mut profile);
    profile
}

#[test]
fn preset_profile_validates() {
    parse_and_validate(preset()).expect("preset should validate");
}

#[test]
fn rejects_unknown_schema_version() {
    let value = mutated(|p| p.schema_version = 2);
    assert!(validation_message(value).contains("schema version"));
}

#[test]
fn rejects_unknown_catalog_and_unavailable_drivers() {
    let cases: [(fn(&mut BoardProfile), &str); 3] = [
        (|p| p.driver_catalog = "esp32s3-v2".to_owned(), "driver catalog"),
        (|p| p.display.driver = "unknown-rgb".to_owned(), "display driver"),
        (|p| p.touch.driver = "unknown-touch".to_owned(), "touch driver"),
    ];
    for (change, expected) in cases {
        assert!(validation_message(mutated(change)).contains(expected));
    }
}

#[test]
fn rejects_unavailable_expander_driver() {
    let value = mutated(|p| p.expander.driver = "unknown-expander".to_owned());
    assert!(validation_message(value).contains("expander driver"));
}

#[test]
fn rejects_incompatible_memory() {
    let cases: [(fn(&mut BoardProfile), &str); 3] = [
        (|p| p.hardware.flash_mb = 4, "flash"),
        (|p| p.hardware.psram_mb = 4, "PSRAM"),
        (|p| p.hardware.psram_mode = "quad".to_owned(), "PSRAM mode"),
    ];
    for (change, expected) in cases {
        assert!(validation_message(mutated(change)).contains(expected));
    }
}

#[test]
fn rejects_invalid_excluded_and_out_of_range_pins() {
    let cases: [fn(&mut BoardProfile); 3] = [
        |p| p.display.hsync = -1,
        |p| p.display.vsync = 26,
        |p| p.touch.irq = 49,
    ];
    for change in cases {
        assert!(validation_message(mutated(change)).contains("GPIO"));
    }
}

#[test]
fn rejects_accidental_pin_duplicates() {
    let cases: [fn(&mut BoardProfile); 4] = [
        |p| p.display.vsync = 46,
        |p| p.display.data[1] = 14,
        |p| p.touch.irq = 8,
        |p| p.touch.sda = 14,
    ];
    for change in cases {
        assert!(validation_message(mutated(change)).contains("GPIO"));
    }
}

#[test]
fn permits_only_consistent_i2c_pin_sharing() {
    assert!(validation_message(mutated(|p| p.expander.bus = 1)).contains("I2C"));
    assert!(validation_message(mutated(|p| p.expander.sda = 6)).contains("I2C"));
    assert!(validation_message(mutated(|p| p.backlight.enable_expander = 3)).contains("backlight"));
    assert!(validation_message(mutated(|p| p.touch.reset_expander = 3)).contains("touch reset"));
}

#[test]
fn rejects_unsupported_i2c_buses_and_expander_outputs() {
    let cases: [(fn(&mut BoardProfile), &str); 6] = [
        (|p| p.touch.bus = 255, "I2C bus"),
        (|p| p.expander.bus = 255, "I2C bus"),
        (|p| p.touch.reset_expander = 254, "expander output"),
        (|p| p.expander.touch_reset = 254, "expander output"),
        (|p| p.backlight.enable_expander = 255, "expander output"),
        (|p| p.expander.backlight_enable = 255, "expander output"),
    ];
    for (change, expected) in cases {
        assert!(validation_message(mutated(change)).contains(expected));
    }

    let alternate_bus_and_output_edges = mutated(|p| {
        p.touch.bus = 1;
        p.expander.bus = 1;
        p.touch.reset_expander = 5;
        p.expander.touch_reset = 5;
        p.backlight.enable_expander = 0;
        p.expander.backlight_enable = 0;
    });
    parse_and_validate(alternate_bus_and_output_edges)
        .expect("catalog should allow I2C bus 1 and CH422G outputs 0 through 5");
}

#[test]
fn rejects_invalid_display_geometry_timing_and_format() {
    let cases: [(fn(&mut BoardProfile), &str); 9] = [
        (|p| p.display.width = 0, "width"),
        (|p| p.display.width = 801, "width"),
        (|p| p.display.height = 0, "height"),
        (|p| p.display.height = 481, "height"),
        (|p| p.display.timing.h_pulse = 0, "timing"),
        (|p| p.display.timing.v_front = 0, "timing"),
        (|p| p.display.pixel_clock_hz = 0, "pixel clock"),
        (|p| p.display.pixel_clock_hz = 21_000_001, "pixel clock"),
        (|p| p.display.color_format = "rgb888".to_owned(), "color format"),
    ];
    for (change, expected) in cases {
        assert!(validation_message(mutated(change)).contains(expected));
    }
}

#[test]
fn rejects_invalid_resource_policy() {
    let cases: [(fn(&mut BoardProfile), &str); 5] = [
        (|p| p.resources.framebuffers = 0, "framebuffers"),
        (|p| p.resources.framebuffers = 3, "framebuffers"),
        (|p| p.resources.bounce_buffer_lines = 0, "bounce buffer"),
        (|p| p.resources.bounce_buffer_lines = 81, "bounce buffer"),
        (|p| p.resources.prefer_psram = false, "PSRAM"),
    ];
    for (change, expected) in cases {
        assert!(validation_message(mutated(change)).contains(expected));
    }
}

#[test]
fn validation_messages_name_the_broken_rule() {
    assert_eq!(
        validation_message(mutated(|p| p.schema_version = 99)),
        "board profile validation error: unsupported schema version 99; expected 1"
    );
    assert_eq!(
        validation_message(mutated(|p| p.display.vsync = 46)),
        "board profile validation error: GPIO 46 is assigned to both display.hsync and display.vsync"
    );
    assert_eq!(
        validation_message(mutated(|p| p.display.hsync = -1)),
        "board profile validation error: GPIO -1 assigned to display.hsync is unavailable on ESP32-S3 N8R8"
    );
    assert_eq!(
        validation_message(mutated(|p| p.driver_catalog = "other".to_owned())),
        "board profile validation error: unknown driver catalog \"other\"; expected \"esp32s3-v1\""
    );
}

#[test]
fn calculates_framebuffer_memory_policy() {
    let nearly_full_size = mutated(|p| {
        p.display.width = 799;
        p.resources.prefer_psram = false;
    });
    assert!(validation_message(nearly_full_size).contains("PSRAM"));

    let small = mutated(|p| {
        p.display.width = 320;
        p.display.height = 240;
        p.resources.framebuffers = 1;
        p.resources.prefer_psram = false;
    });
    parse_and_validate(small).expect("a small framebuffer may use internal memory");

    let exceeds_declared_psram = mutated(|p| p.hardware.psram_mb = 1);
    assert!(validation_message(exceeds_declared_psram).contains("exceeds declared PSRAM"));
}

#[test]
fn accounts_for_two_internal_bounce_buffers() {
    let combined_internal_overflow = mutated(|p| {
        p.display.width = 340;
        p.display.height = 380;
        p.resources.framebuffers = 1;
        p.resources.bounce_buffer_lines = 80;
        p.resources.prefer_psram = false;
    });
    let message = validation_message(combined_internal_overflow);
    assert!(message.contains("367200"));
    assert!(message.contains("internal RAM"));

    let boundary_with_psram = mutated(|p| p.resources.bounce_buffer_lines = 80);
    parse_and_validate(boundary_with_psram)
        .expect("two 800x80 bounce buffers use 256000 internal bytes");

    let boundary_without_psram = mutated(|p| {
        p.resources.bounce_buffer_lines = 80;
        p.resources.prefer_psram = false;
    });
    assert!(validation_message(boundary_without_psram).contains("internal RAM"));
}

#[test]
fn memory_messages_give_the_byte_counts() {
    assert_eq!(
        validation_message(mutated(|p| p.hardware.psram_mb = 1)),
        "board profile validation error: framebuffers need 1536000 bytes, which exceeds declared PSRAM of 1 MB"
    );
    assert_eq!(
        validation_message(mutated(|p| {
            p.display.width = 340;
            p.display.height = 380;
            p.resources.framebuffers = 1;
            p.resources.bounce_buffer_lines = 80;
            p.resources.prefer_psram = false;
        })),
        "board profile validation error: display buffers need 367200 bytes of internal RAM, over the budget of 327680 bytes; prefer PSRAM for the framebuffers"
    );
}
