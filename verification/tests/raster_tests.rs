use vic::raster::{Canvas, Config, PixelType, SymbolMap, SYMBOLS_ALL, SYMBOLS_BLOCK};

#[test]
fn test_some_functions() {
    println!("{:?}", SymbolMap::new());
    println!("{:?}", Config::new());
    println!("{:?}", PixelType::Rgb8);
    println!("{:?}", PixelType::Rgba8Unassociated);
}

#[test]
fn test_chafa_example() {
    let pix_width: i32 = 3;
    let pix_height: i32 = 3;
    let n_channels: i32 = 4;
    let pixels: [u8; 36] = [
        0xff, 0x00, 0x00, 0xff, 0x00, 0x00, 0x00, 0xff, 0xff, 0x00, 0x00, 0xff, 0x00, 0x00,
        0x00, 0xff, 0xff, 0x00, 0x00, 0xff, 0x00, 0x00, 0x00, 0xff, 0xff, 0x00, 0x00, 0xff,
        0x00, 0x00, 0x00, 0xff, 0xff, 0x00, 0x00, 0xff,
    ];

    let mut symbol_map = SymbolMap::new();
    symbol_map.add_by_tags(SYMBOLS_ALL);

    let mut config = Config::new();
    config.set_geometry(23, 6);
    config.set_symbol_map(symbol_map);

    let mut canvas = Canvas::new(config);

    canvas.draw_all_pixels(
        PixelType::Rgba8Unassociated,
        &pixels,
        pix_width,
        pix_height,
        pix_width * n_channels,
    );

    println!("{}", canvas.build_ansi());
}

#[test]
fn test_one_pixel_output() {
    // just a red block char
    let pix_width: i32 = 1;
    let pix_height: i32 = 1;
    let n_channels: i32 = 4;
    let pixels: [u8; 4] = [0xff, 0x00, 0x00, 0xff];

    let mut symbol_map = SymbolMap::new();
    symbol_map.add_by_tags(SYMBOLS_BLOCK);

    let mut config = Config::new();
    config.set_geometry(1, 1);
    config.set_symbol_map(symbol_map);

    let mut canvas = Canvas::new(config);

    canvas.draw_all_pixels(
        PixelType::Rgba8Unassociated,
        &pixels,
        pix_width,
        pix_height,
        pix_width * n_channels,
    );

    let output: String = canvas.build_ansi();
    assert_eq!(output, "\u{1b}[0m\u{1b}[38;2;254;0;0m█\u{1b}[0m");
}

#[test]
fn rgb_frame_renders_exact_colors() {
    // a 2x1 image rendered on a 2x1 canvas keeps each pixel's color exactly
    let pixels: [u8; 6] = [10, 20, 30, 200, 150, 100];
    let mut config = Config::new();
    config.set_geometry(2, 1);
    let mut canvas = Canvas::new(config);
    canvas.draw_all_pixels(PixelType::Rgb8, &pixels, 2, 1, 6);
    let output = canvas.build_ansi();
    assert_eq!(
        output,
        "\u{1b}[0m\u{1b}[38;2;10;20;30m█\u{1b}[38;2;200;150;100m█\u{1b}[0m"
    );
}

#[test]
fn rows_are_newline_separated() {
    let pixels: [u8; 12] = [1, 2, 3, 4, 5, 6, 7, 8, 9, 10, 11, 12];
    let mut config = Config::new();
    config.set_geometry(1, 2);
    let mut canvas = Canvas::new(config);
    // 1x2 canvas over a 2x2 image samples the pixel centers of each half
    canvas.draw_all_pixels(PixelType::Rgb8, &pixels, 2, 2, 6);
    let output = canvas.build_ansi();
    assert_eq!(output.matches('\n').count(), 1);
}
