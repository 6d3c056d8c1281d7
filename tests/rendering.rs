use abar::{clock_label, delimiter, Constant, Producer, StatusBar, StatusBlock};

#[derive(Default)]
struct Fixed(&'static str);

impl Producer for Fixed {
    fn produce(&self) -> Option<String> {
        Some(self.0.to_string())
    }
}

fn shown(text: &'static str) -> StatusBlock<Fixed> {
    let mut b = StatusBlock::new().command(Fixed(text));
    b.update(0);
    b
}

#[test]
fn render_is_repeatable() {
    let bar = StatusBar::new()
        .delimiter(" | ")
        .left_buffer(" >>> ")
        .right_buffer(" <<< ")
        .blocks(vec![shown("a"), shown("b")]);
    let first = bar.render();
    let second = bar.render();
    assert_eq!(first, second);
    assert_eq!(first, " >>> a | b <<< ");
}

#[test]
fn delimiter_count_is_visible_minus_one() {
    for n in 0..5usize {
        let blocks: Vec<StatusBlock<Fixed>> = (0..n).map(|_| shown("x")).collect();
        let bar = StatusBar::new().delimiter("|").blocks(blocks);
        let line = bar.render();
        assert_eq!(line.matches('|').count(), n.saturating_sub(1));
    }
}

#[test]
fn hidden_blocks_leave_no_delimiter() {
    let bar = StatusBar::new()
        .delimiter(" | ")
        .hide_empty_modules(true)
        .blocks(vec![shown(""), shown("a"), shown(""), shown("c"), shown("")]);
    assert_eq!(bar.render(), "a | c");
}

#[test]
fn empty_blocks_shown_when_not_hidden() {
    let bar = StatusBar::new().delimiter(",").blocks(vec![shown(""), shown("a"), shown("")]);
    assert_eq!(bar.render(), ",a,");
}

#[test]
fn equal_limits_give_fixed_width() {
    assert_eq!(shown("hello").size(3).render_value(), "hel");
    assert_eq!(shown("a").size(3).render_value(), "a  ");
    assert_eq!(shown("").size(3).render_value(), "   ");
    assert_eq!(shown("abc").size(3).render_value(), "abc");
    assert_eq!(shown("héllo wörld").size(4).render_value().chars().count(), 4);
}

#[test]
fn max_size_only_truncates() {
    assert_eq!(shown("hello").max_size(2).render_value(), "he");
    assert_eq!(shown("hi").max_size(5).render_value(), "hi");
    assert_eq!(shown("hello").max_size(0).render_value(), "");
}

#[test]
fn min_size_only_pads() {
    assert_eq!(shown("hi").min_size(4).render_value(), "hi  ");
    assert_eq!(shown("hello").min_size(2).render_value(), "hello");
}

#[test]
fn truncation_comes_before_padding() {
    assert_eq!(shown("hello").max_size(2).min_size(4).render_value(), "he  ");
    assert_eq!(shown("hello").min_size(2).max_size(4).render_value(), "hell");
}

#[test]
fn render_if_changed_reports_changes_only() {
    let mut bar = StatusBar::new().blocks(vec![StatusBlock::new().command(Fixed("a"))]);
    assert_eq!(bar.render_if_changed(), Some(String::new()));
    assert_eq!(bar.render_if_changed(), None);
    bar.update(0);
    assert_eq!(bar.render_if_changed(), Some("a".to_string()));
    assert_eq!(bar.render_if_changed(), None);
}

#[test]
fn default_delimiter() {
    assert_eq!(delimiter(), " | ");
}

#[test]
fn clock_label_pads_fields() {
    assert_eq!(clock_label(9, 5, 7, true), "09:05:07 PM");
    assert_eq!(clock_label(12, 30, 0, false), "12:30:00 AM");
    assert_eq!(clock_label(10, 59, 60, false), "10:59:60 AM");
    assert_eq!(clock_label(123, 0, 0, true), "123:00:00 PM");
}

#[test]
fn constant_producer_returns_its_text() {
    assert_eq!(Constant::new("fixed").produce(), Some("fixed".to_string()));
    assert_eq!(Constant::default().produce(), Some(String::new()));
    let mut b: StatusBlock<Constant> = StatusBlock::new().command(Constant::new("c"));
    b.update(0);
    assert_eq!(b.get_cache(), "c");
}
