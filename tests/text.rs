use elmesque::text::{Line, Position, Style, Text};

type Rgba = (u8, u8, u8, u8);
type Txt = Text<Rgba, f64>;

const WHITE: Rgba = (255, 255, 255, 255);
const RED: Rgba = (204, 0, 0, 255);

fn strings(t: &Txt) -> Vec<String> {
    t.sequence.iter().map(|u| u.string.clone()).collect()
}

#[test]
fn color_and_height_reach_every_unit() {
    let t = Txt::from_string("hi".to_string()).color(WHITE).height(20.0);
    assert_eq!(t.sequence.len(), 1);
    for unit in t.sequence.iter() {
        assert_eq!(unit.style.color, WHITE);
        assert_eq!(unit.style.height, Some(20.0));
    }
    let many = Txt::concat(vec![
        Txt::from_string("a".to_string()).color(RED),
        Txt::from_string("b".to_string()).bold(),
        Txt::from_string("c".to_string()).height(3.0),
    ])
    .color(WHITE)
    .height(20.0);
    assert_eq!(many.sequence.len(), 3);
    for unit in many.sequence.iter() {
        assert_eq!(unit.style.color, WHITE);
        assert_eq!(unit.style.height, Some(20.0));
    }
    assert!(many.sequence[1].style.bold);
    assert!(!many.sequence[0].style.bold);
}

#[test]
fn from_string_is_plain_and_centred() {
    let t = Txt::from_string("hello".to_string());
    assert_eq!(strings(&t), vec!["hello".to_string()]);
    let s = &t.sequence[0].style;
    assert_eq!(s.color, (0, 0, 0, 0));
    assert_eq!(s.height, None);
    assert_eq!(s.typeface, None);
    assert!(!s.bold && !s.italic && !s.monospace);
    assert!(s.line.is_none());
    assert_eq!(t.position, Position::Center);
    assert_eq!(strings(&Txt::empty()), vec![String::new()]);
}

#[test]
fn append_keeps_unit_styles() {
    let a = Txt::from_string("a".to_string()).color(RED).position(Position::ToLeft);
    let b = Txt::from_string("b".to_string()).italic();
    let t = a.append(b);
    assert_eq!(strings(&t), vec!["a".to_string(), "b".to_string()]);
    assert_eq!(t.sequence[0].style.color, RED);
    assert!(t.sequence[1].style.italic);
    assert_eq!(t.position, Position::ToLeft);
}

#[test]
fn concat_takes_position_of_first() {
    let t = Txt::concat(vec![
        Txt::from_string("x".to_string()).position(Position::ToRight),
        Txt::from_string("y".to_string()).position(Position::ToLeft),
    ]);
    assert_eq!(strings(&t), vec!["x".to_string(), "y".to_string()]);
    assert_eq!(t.position, Position::ToRight);
    let none = Txt::concat(vec![]);
    assert!(none.sequence.is_empty());
    assert_eq!(none.position, Position::Center);
}

#[test]
fn join_puts_separator_after_each_text() {
    let sep = Txt::from_string(", ".to_string()).bold();
    let t = Txt::join(sep, vec![Txt::from_string("a".to_string()), Txt::from_string("b".to_string())]);
    assert_eq!(
        strings(&t),
        vec![String::new(), "a".to_string(), ", ".to_string(), "b".to_string(), ", ".to_string()]
    );
    assert!(t.sequence[2].style.bold);
    assert!(t.sequence[4].style.bold);
    assert!(!t.sequence[3].style.bold);
    let lone = Txt::join(Txt::from_string("-".to_string()), vec![]);
    assert_eq!(strings(&lone), vec![String::new()]);
}

#[test]
fn style_collapses_units_into_one() {
    let t = Txt::from_string("the old ".to_string())
        .color(RED)
        .append(Txt::from_string("prince".to_string()).bold())
        .position(Position::ToLeft);
    let footer: Style<Rgba, f64> = Style {
        typeface: Some("serif.ttf".to_string()),
        height: Some(12.0),
        color: WHITE,
        bold: false,
        italic: true,
        line: Some(Line::Under),
        monospace: false,
    };
    let styled = t.style(footer.clone());
    assert_eq!(strings(&styled), vec!["the old prince".to_string()]);
    assert_eq!(styled.sequence[0].style.color, WHITE);
    assert_eq!(styled.sequence[0].style.height, Some(12.0));
    assert_eq!(styled.sequence[0].style.typeface, Some("serif.ttf".to_string()));
    assert!(styled.sequence[0].style.italic && !styled.sequence[0].style.bold);
    assert_eq!(styled.position, Position::ToLeft);
}

#[test]
fn flag_builders_reach_every_unit() {
    let t = Txt::from_string("a".to_string())
        .append(Txt::from_string("b".to_string()))
        .typeface("mono.ttf".to_string())
        .monospace()
        .italic()
        .line(Line::Through);
    for unit in t.sequence.iter() {
        assert_eq!(unit.style.typeface, Some("mono.ttf".to_string()));
        assert!(unit.style.monospace && unit.style.italic);
        assert_eq!(unit.style.line, Some(Line::Through));
    }
    assert_eq!(strings(&t), vec!["a".to_string(), "b".to_string()]);
}
