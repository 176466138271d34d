use peapod::phenotype::round_trip;
use peapod::Peapod;
use peapod::Phenotype;
use peapod::PhenotypeDebug;

#[derive(Clone, PartialEq, Debug)]
enum Shape {
    Pair(u32, String),
    Named { width: u32, label: String },
    Empty,
}

#[derive(Clone, PartialEq, Debug)]
struct ShapeValue {
    number: u32,
    text: String,
}

impl Phenotype for Shape {
    const NUM_VARIANTS: usize = 3;
    const BITS: usize = 2;
    const PEAPOD_SIZE: Option<usize> = Some(1 + std::mem::size_of::<ShapeValue>());
    const IS_MORE_COMPACT: Option<bool> =
        Some(1 + std::mem::size_of::<ShapeValue>() <= std::mem::size_of::<Shape>());
    type Value = ShapeValue;

    fn cleave(self) -> (usize, ShapeValue) {
        match self {
            Shape::Pair(number, text) => (0, ShapeValue { number, text }),
            Shape::Named { width, label } => (1, ShapeValue { number: width, text: label }),
            Shape::Empty => (2, ShapeValue { number: 0, text: String::new() }),
        }
    }

    fn reknit(tag: usize, value: ShapeValue) -> Shape {
        match tag {
            0 => Shape::Pair(value.number, value.text),
            1 => Shape::Named { width: value.number, label: value.text },
            2 => Shape::Empty,
            _ => unreachable!(),
        }
    }
}

impl PhenotypeDebug for Shape {
    fn discriminant(&self) -> usize {
        match self {
            Shape::Pair(..) => 0,
            Shape::Named { .. } => 1,
            Shape::Empty => 2,
        }
    }

    fn debug_tag(tag: usize) -> &'static str {
        match tag {
            0 => "Shape::Pair",
            1 => "Shape::Named",
            2 => "Shape::Empty",
            _ => panic!("invalid tag"),
        }
    }
}

#[derive(Clone, PartialEq, Debug)]
enum Only {
    One(u64),
}

impl Phenotype for Only {
    const NUM_VARIANTS: usize = 1;
    const BITS: usize = 0;
    const PEAPOD_SIZE: Option<usize> = Some(8);
    const IS_MORE_COMPACT: Option<bool> = Some(true);
    type Value = u64;

    fn cleave(self) -> (usize, u64) {
        match self {
            Only::One(n) => (0, n),
        }
    }

    fn reknit(_tag: usize, value: u64) -> Only {
        Only::One(value)
    }
}

fn pair(n: u32) -> Shape {
    Shape::Pair(n, format!("pair {}", n))
}

fn named(n: u32) -> Shape {
    Shape::Named { width: n, label: format!("named {}", n) }
}

#[test]
fn every_shape_survives_the_round_trip() {
    assert_eq!(round_trip(pair(7)), pair(7));
    assert_eq!(round_trip(named(9)), named(9));
    assert_eq!(round_trip(Shape::Empty), Shape::Empty);
    assert_eq!(round_trip(true), true);
    assert_eq!(round_trip(false), false);
    assert_eq!(round_trip(()), ());
    assert_eq!(round_trip(Only::One(5)), Only::One(5));
}

#[test]
fn cleave_gives_the_tag_of_the_variant() {
    assert_eq!(pair(1).cleave().0, 0);
    assert_eq!(named(1).cleave().0, 1);
    assert_eq!(Shape::Empty.cleave().0, 2);
    assert_eq!(true.cleave(), (1, ()));
    assert_eq!(false.cleave(), (0, ()));
    assert_eq!(().cleave(), (0, ()));
}

#[test]
fn adapters_of_std_types_state_their_widths() {
    assert_eq!(<bool as Phenotype>::NUM_VARIANTS, 2);
    assert_eq!(<bool as Phenotype>::BITS, 1);
    assert_eq!(<() as Phenotype>::NUM_VARIANTS, 1);
    assert_eq!(<() as Phenotype>::BITS, 0);
    assert_eq!(peapod::tag_bits(<bool as Phenotype>::NUM_VARIANTS), Some(<bool as Phenotype>::BITS));
    assert_eq!(peapod::tag_bits(<() as Phenotype>::NUM_VARIANTS), Some(<() as Phenotype>::BITS));
    assert_eq!(peapod::tag_bits(Shape::NUM_VARIANTS), Some(Shape::BITS));
}

#[test]
fn discriminant_is_the_tag_of_cleave() {
    assert_eq!(pair(3).discriminant(), 0);
    assert_eq!(named(3).discriminant(), 1);
    assert_eq!(Shape::Empty.discriminant(), 2);
    assert_eq!(true.discriminant(), 1);
    assert_eq!(false.discriminant(), 0);
    assert_eq!(().discriminant(), 0);
    assert_eq!(Shape::debug_tag(1), "Shape::Named");
    assert_eq!(<bool as PhenotypeDebug>::debug_tag(0), "bool::false");
    assert_eq!(<bool as PhenotypeDebug>::debug_tag(1), "bool::true");
    assert_eq!(<() as PhenotypeDebug>::debug_tag(0), "()");
}

#[test]
fn last_in_first_out() {
    let mut pp = Peapod::<Shape>::new();
    pp.push(pair(1));
    pp.push(named(2));
    pp.push(Shape::Empty);
    assert_eq!(pp.pop(), Some(Shape::Empty));
    assert_eq!(pp.pop(), Some(named(2)));
    assert_eq!(pp.pop(), Some(pair(1)));
    assert_eq!(pp.pop(), None);
}

#[test]
fn length_follows_appends_and_removals() {
    let mut pp = Peapod::<Shape>::new();
    assert_eq!(pp.len(), 0);
    assert!(pp.is_empty());
    pp.push(pair(10));
    assert_eq!(pp.len(), 1);
    assert!(!pp.is_empty());
    pp.push(named(20));
    assert_eq!(pp.len(), 2);
    pp.push(Shape::Empty);
    assert_eq!(pp.len(), 3);
    assert_eq!(pp.pop(), Some(Shape::Empty));
    assert_eq!(pp.len(), 2);
    assert_eq!(pp.pop(), Some(named(20)));
    assert_eq!(pp.len(), 1);
    assert_eq!(pp.pop(), Some(pair(10)));
    assert_eq!(pp.len(), 0);
    assert!(pp.is_empty());
}

#[test]
fn tag_bits_are_the_length_times_the_width() {
    let mut pp = Peapod::<Shape>::new();
    assert_eq!(pp.tag_bit_len(), 0);
    for i in 0..100u32 {
        pp.push(if i % 3 == 0 { pair(i) } else if i % 3 == 1 { named(i) } else { Shape::Empty });
        assert_eq!(pp.tag_bit_len(), pp.len() * Shape::BITS);
    }
    for _ in 0..60 {
        pp.pop();
        assert_eq!(pp.tag_bit_len(), pp.len() * Shape::BITS);
    }
    pp.truncate(7);
    assert_eq!(pp.tag_bit_len(), 14);
    pp.clear();
    assert_eq!(pp.tag_bit_len(), 0);
}

#[test]
fn both_ends_of_four() {
    let pp = Peapod::from(vec![pair(1), named(2), Shape::Empty, pair(4)]);
    let mut iter = pp.into_iter();
    assert_eq!(iter.next(), Some(pair(1)));
    assert_eq!(iter.next_back(), Some(pair(4)));
    assert_eq!(iter.next(), Some(named(2)));
    assert_eq!(iter.next_back(), Some(Shape::Empty));
    assert_eq!(iter.len(), 0);
    assert_eq!(iter.next(), None);
    assert_eq!(iter.next_back(), None);
    assert_eq!(iter.len(), 0);
}

#[test]
fn remaining_length_counts_what_is_left() {
    let pp = Peapod::from(vec![pair(1), named(2), Shape::Empty, pair(4), named(5)]);
    let mut iter = pp.into_iter();
    let mut left = 5;
    assert_eq!(iter.len(), left);
    while left > 0 {
        let taken = if left % 2 == 0 { iter.next() } else { iter.next_back() };
        assert!(taken.is_some());
        left -= 1;
        assert_eq!(iter.len(), left);
        assert_eq!(iter.size_hint(), (left, Some(left)));
    }
    assert_eq!(iter.next(), None);
    assert_eq!(iter.next_back(), None);
    assert_eq!(iter.size_hint(), (0, Some(0)));
}

#[test]
fn empty_container_has_nothing_to_remove() {
    let mut pp = Peapod::<Shape>::new();
    assert_eq!(pp.pop(), None);
    assert_eq!(pp.pop(), None);
    assert_eq!(pp.len(), 0);
    pp.truncate(0);
    pp.truncate(10);
    pp.clear();
    assert_eq!(pp.len(), 0);
    let mut iter = pp.into_iter();
    assert_eq!(iter.len(), 0);
    assert_eq!(iter.next(), None);
    assert_eq!(iter.next_back(), None);
}

#[test]
fn truncate_beyond_the_length_keeps_all() {
    let mut pp = Peapod::from(vec![pair(1), named(2)]);
    pp.truncate(2);
    assert_eq!(pp.len(), 2);
    pp.truncate(3);
    assert_eq!(pp.len(), 2);
    pp.truncate(usize::MAX / 2 + 1);
    assert_eq!(pp.len(), 2);
    pp.truncate(usize::MAX);
    assert_eq!(pp.len(), 2);
    assert_eq!(pp.pop(), Some(named(2)));
    assert_eq!(pp.pop(), Some(pair(1)));
}

#[test]
fn truncate_keeps_the_first_elements() {
    let mut pp = Peapod::from(vec![pair(1), named(2), Shape::Empty, pair(4)]);
    pp.truncate(2);
    assert_eq!(pp.len(), 2);
    assert_eq!(pp.tags(), vec![0, 1]);
    assert_eq!(pp.into_vec(), vec![pair(1), named(2)]);
}

#[test]
fn clear_keeps_the_capacity() {
    let mut pp = Peapod::<Shape>::new();
    for i in 0..50 {
        pp.push(named(i));
    }
    let before = pp.capacity();
    assert!(before >= 50);
    pp.clear();
    assert_eq!(pp.len(), 0);
    assert!(pp.capacity() >= before);
    pp.push(pair(1));
    assert_eq!(pp.pop(), Some(pair(1)));
}

#[test]
fn single_variant_takes_no_tag_storage() {
    assert_eq!(peapod::tag_bits(Only::NUM_VARIANTS), Some(0));
    let mut pp = Peapod::<Only>::new();
    for n in 0..1000u64 {
        pp.push(Only::One(n));
        assert_eq!(pp.tag_bit_len(), 0);
    }
    assert_eq!(pp.len(), 1000);
    assert!(pp.capacity() >= 1000);
    assert_eq!(pp.tags(), vec![0usize; 1000]);
    for n in (0..1000u64).rev() {
        assert_eq!(pp.pop(), Some(Only::One(n)));
        assert_eq!(pp.tag_bit_len(), 0);
    }
    assert_eq!(pp.pop(), None);
}

#[test]
fn unit_container_counts_its_elements() {
    let mut pp = Peapod::<()>::with_capacity(3);
    pp.push(());
    pp.push(());
    assert_eq!(pp.len(), 2);
    assert_eq!(pp.tag_bit_len(), 0);
    assert_eq!(pp.to_string(), "[ { tag: 0, data: .. }, { tag: 0, data: .. }, ]");
    assert_eq!(pp.pop(), Some(()));
    assert_eq!(pp.pop(), Some(()));
    assert_eq!(pp.pop(), None);
}

#[test]
fn bool_container_is_a_bit_vector() {
    let values = vec![true, false, false, true, true, true, false];
    let mut pp = Peapod::from(values.clone());
    assert_eq!(pp.tag_bit_len(), 7);
    assert_eq!(pp.tags(), vec![1, 0, 0, 1, 1, 1, 0]);
    assert_eq!(pp.pop(), Some(false));
    assert_eq!(pp.pop(), Some(true));
    assert_eq!(pp.into_vec(), vec![true, false, false, true, true]);
}

#[test]
fn three_shapes_end_to_end() {
    let mut pp = Peapod::<Shape>::new();
    assert_eq!(pp.len(), 0);
    pp.push(Shape::Pair(5, "five".to_string()));
    assert_eq!(pp.len(), 1);
    pp.push(Shape::Named { width: 6, label: "six".to_string() });
    assert_eq!(pp.len(), 2);
    pp.push(Shape::Empty);
    assert_eq!(pp.len(), 3);
    assert_eq!(pp.pop(), Some(Shape::Empty));
    assert_eq!(pp.len(), 2);
    assert_eq!(pp.pop(), Some(Shape::Named { width: 6, label: "six".to_string() }));
    assert_eq!(pp.len(), 1);
    assert_eq!(pp.pop(), Some(Shape::Pair(5, "five".to_string())));
    assert_eq!(pp.len(), 0);
}

#[test]
fn from_vec_and_back_keeps_the_order() {
    let values: Vec<Shape> =
        (0..200u32).map(|i| if i % 2 == 0 { pair(i) } else { named(i) }).collect();
    let pp = Peapod::from(values.clone());
    assert_eq!(pp.len(), 200);
    assert!(pp.capacity() >= 200);
    assert_eq!(pp.into_vec(), values);
    let empty = Peapod::<Shape>::from(Vec::new());
    assert_eq!(empty.len(), 0);
    assert_eq!(empty.into_vec(), Vec::new());
}

#[test]
fn extend_appends_in_order() {
    let mut pp = Peapod::from(vec![pair(1)]);
    pp.extend(vec![named(2), Shape::Empty]);
    pp.extend(Vec::new());
    assert_eq!(pp.len(), 3);
    assert_eq!(pp.tags(), vec![0, 1, 2]);
    assert_eq!(pp.into_vec(), vec![pair(1), named(2), Shape::Empty]);
}

#[test]
fn append_takes_the_other_container() {
    let mut pp = Peapod::from(vec![pair(1), named(2)]);
    let other = Peapod::from(vec![Shape::Empty, pair(4)]);
    pp.append(other);
    assert_eq!(pp.len(), 4);
    pp.append(Peapod::new());
    assert_eq!(pp.len(), 4);
    assert_eq!(pp.into_vec(), vec![pair(1), named(2), Shape::Empty, pair(4)]);
}

#[test]
fn try_push_appends_where_there_is_room() {
    let mut pp = Peapod::<Shape>::new();
    assert_eq!(pp.try_push(pair(1)), Ok(()));
    assert_eq!(pp.try_push(Shape::Empty), Ok(()));
    assert_eq!(pp.len(), 2);
    assert_eq!(pp.pop(), Some(Shape::Empty));
}

#[test]
fn max_len_is_what_the_tag_stream_holds() {
    assert_eq!(Peapod::<Shape>::max_len(), usize::MAX / 8 / 2);
    assert_eq!(Peapod::<bool>::max_len(), usize::MAX / 8);
    assert_eq!(Peapod::<Only>::max_len(), usize::MAX);
}

#[test]
fn with_capacity_and_reserve_make_room() {
    let mut pp = Peapod::<Shape>::with_capacity(64);
    assert_eq!(pp.len(), 0);
    assert!(pp.capacity() >= 64);
    pp.push(pair(1));
    pp.reserve(300);
    assert!(pp.capacity() >= 301);
    assert_eq!(pp.len(), 1);
    assert_eq!(pp.pop(), Some(pair(1)));
}

#[test]
fn capacity_is_the_smaller_of_the_two() {
    assert_eq!(Peapod::<Shape>::capacity_of(3, 5), 3);
    assert_eq!(Peapod::<Shape>::capacity_of(5, 3), 3);
    assert_eq!(Peapod::<Shape>::capacity_of(4, 4), 4);
    assert_eq!(Peapod::<Shape>::capacity_of(0, usize::MAX), 0);
}

#[test]
fn default_is_empty() {
    let pp: Peapod<Shape> = Default::default();
    assert_eq!(pp.len(), 0);
    assert_eq!(pp.capacity(), 0);
}

#[test]
fn clone_holds_the_same_values() {
    let pp = Peapod::from(vec![pair(1), named(2), Shape::Empty]);
    let mut copy = pp.clone();
    assert!(pp == copy);
    assert_eq!(copy.pop(), Some(Shape::Empty));
    assert!(pp != copy);
    assert_eq!(pp.len(), 3);
    assert_eq!(copy.into_vec(), vec![pair(1), named(2)]);
    assert_eq!(pp.into_vec(), vec![pair(1), named(2), Shape::Empty]);
}

#[test]
fn equality_compares_tags_and_data() {
    let a = Peapod::from(vec![pair(1), named(2)]);
    let b = Peapod::from(vec![pair(1), named(2)]);
    let other_data = Peapod::from(vec![pair(1), named(3)]);
    let other_tag = Peapod::from(vec![pair(1), Shape::Pair(2, "named 2".to_string())]);
    let shorter = Peapod::from(vec![pair(1)]);
    assert!(a == b);
    assert!(a != other_data);
    assert!(a != other_tag);
    assert!(a != shorter);
    assert!(Peapod::<Shape>::new() == Peapod::<Shape>::new());
}

#[test]
fn list_text_shows_each_tag() {
    let pp = Peapod::from(vec![pair(1), Shape::Empty, named(2)]);
    assert_eq!(
        pp.to_string(),
        "[ { tag: 0, data: .. }, { tag: 2, data: .. }, { tag: 1, data: .. }, ]"
    );
    assert_eq!(Peapod::<Shape>::new().to_string(), "[ ]");
}

#[test]
fn record_text_lists_the_tags() {
    let pp = Peapod::from(vec![pair(1), Shape::Empty, named(2)]);
    assert_eq!(pp.debug_string(), "Peapod { tags: [0, 2, 1], data: [..] }");
    assert_eq!(Peapod::from(vec![Shape::Empty]).debug_string(), "Peapod { tags: [2], data: [..] }");
    assert_eq!(Peapod::<Shape>::new().debug_string(), "Peapod { tags: [], data: [..] }");
}

#[test]
fn decimal_text_of_tags() {
    let mut text = String::from("n = ");
    peapod::render::push_decimal(&mut text, 0);
    assert_eq!(text, "n = 0");
    let mut text = String::new();
    peapod::render::push_decimal(&mut text, 9);
    peapod::render::push_decimal(&mut text, 10);
    peapod::render::push_decimal(&mut text, 1234567890);
    assert_eq!(text, "9101234567890");
    let mut text = String::new();
    peapod::render::push_decimal(&mut text, usize::MAX);
    assert_eq!(text, format!("{}", usize::MAX));
}
