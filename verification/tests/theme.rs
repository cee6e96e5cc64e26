use aide::highlight::theme::{Color, Theme};
use aide::highlight::HighlightType;

#[test]
fn test_theme_creation() {
    let theme = Theme::new("Test");
    assert_eq!(theme.name, "Test");
}

#[test]
fn test_dark_theme() {
    let theme = Theme::dark();
    assert_eq!(theme.name, "Dark");

    assert!(theme.background.r() < 100);
    assert!(theme.background.g() < 100);
    assert!(theme.background.b() < 100);

    let keyword_color = theme.get_highlight_color(HighlightType::Keyword);
    assert_ne!(keyword_color, theme.foreground);
}

#[test]
fn test_light_theme() {
    let theme = Theme::light();
    assert_eq!(theme.name, "Light");

    assert!(theme.background.r() > 200);
    assert!(theme.background.g() > 200);
    assert!(theme.background.b() > 200);
}

#[test]
fn test_monokai_theme() {
    let theme = Theme::monokai();
    assert_eq!(theme.name, "Monokai");
}

#[test]
fn test_set_highlight_color() {
    let mut theme = Theme::new("Test");
    let color = Color::from_rgb(255, 0, 0);

    theme.set_highlight_color(HighlightType::Keyword, color);
    assert_eq!(theme.get_highlight_color(HighlightType::Keyword), color);
}

#[test]
fn test_get_highlight_color_default() {
    let theme = Theme::new("Test");
    let color = theme.get_highlight_color(HighlightType::Keyword);
    assert_eq!(color, theme.foreground);
}

#[test]
fn test_default_theme_is_dark() {
    let theme = Theme::default();
    assert_eq!(theme.name, "Dark");
}

// Own tests.

#[test]
fn setting_a_color_twice_keeps_the_last() {
    let mut theme = Theme::new("T");
    theme.set_highlight_color(HighlightType::String, Color::from_rgb(1, 2, 3));
    theme.set_highlight_color(HighlightType::String, Color::from_rgb(4, 5, 6));
    assert_eq!(theme.get_highlight_color(HighlightType::String), Color::from_rgb(4, 5, 6));
    assert_eq!(theme.get_highlight_color(HighlightType::Comment), theme.foreground);
}

#[test]
fn dark_theme_palette_values() {
    let theme = Theme::dark();
    assert_eq!(theme.background, Color::from_rgb(30, 30, 30));
    assert_eq!(theme.get_highlight_color(HighlightType::Keyword), Color::from_rgb(86, 156, 214));
}

#[test]
fn unmultiplied_colors_are_premultiplied_as_egui_does() {
    let c = Color::from_rgba_unmultiplied(100, 100, 200, 100);
    let e = egui::Color32::from_rgba_unmultiplied(100, 100, 200, 100);
    assert_eq!((c.r(), c.g(), c.b(), c.a()), (e.r(), e.g(), e.b(), e.a()));
    assert_ne!((c.r(), c.g(), c.b()), (100, 100, 200));
    let opaque = Color::from_rgba_unmultiplied(10, 20, 30, 255);
    assert_eq!(opaque, Color::from_rgb(10, 20, 30));
    let clear = Color::from_rgba_unmultiplied(10, 20, 30, 0);
    assert_eq!(clear, Color::from_rgba_premultiplied(0, 0, 0, 0));
}
