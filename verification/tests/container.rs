use peapod::Peapod;
use peapod::Phenotype;

#[derive(PartialEq, Debug)]
enum TestData {
    A { u: usize, f: f64 },
    B(usize, f64),
    C,
}

struct TestDataValue {
    u: usize,
    f: f64,
}

impl Phenotype for TestData {
    const NUM_VARIANTS: usize = 3;
    const BITS: usize = 2;
    const PEAPOD_SIZE: Option<usize> = Some(1 + std::mem::size_of::<TestDataValue>());
    const IS_MORE_COMPACT: Option<bool> =
        Some(1 + std::mem::size_of::<TestDataValue>() <= std::mem::size_of::<TestData>());
    type Value = TestDataValue;

    fn cleave(self) -> (usize, TestDataValue) {
        match self {
            TestData::A { u, f } => (0, TestDataValue { u, f }),
            TestData::B(u, f) => (1, TestDataValue { u, f }),
            TestData::C => (2, TestDataValue { u: 0, f: 0.0 }),
        }
    }

    fn reknit(tag: usize, value: TestDataValue) -> TestData {
        match tag {
            0 => TestData::A { u: value.u, f: value.f },
            1 => TestData::B(value.u, value.f),
            2 => TestData::C,
            _ => unreachable!(),
        }
    }
}

fn seven() -> Peapod<TestData> {
    Peapod::from(vec![
        TestData::A { u: 1, f: 1.0 },
        TestData::B(1, 1.0),
        TestData::A { u: 1, f: 1.0 },
        TestData::B(1, 1.0),
        TestData::A { u: 1, f: 1.0 },
        TestData::B(1, 1.0),
        TestData::A { u: 1, f: 1.0 },
    ])
}

#[test]
fn exact_size_iterator() {
    let pp = seven();
    let mut pp = pp.into_iter();
    assert_eq!(pp.len(), 7);
    assert_eq!(pp.size_hint(), (7, Some(7)));
    pp.next();
    assert_eq!(pp.len(), 6);
    assert_eq!(pp.size_hint(), (6, Some(6)));
    for _ in 0..10 {
        pp.next();
    }
    assert_eq!(pp.len(), 0);
    assert_eq!(pp.size_hint(), (0, Some(0)));
}

#[test]
fn double_ended_iterator() {
    let pp = seven();
    let mut pp = pp.into_iter();
    assert_eq!(pp.next_back(), Some(TestData::A { u: 1, f: 1.0 }));
    assert_eq!(pp.next(), Some(TestData::A { u: 1, f: 1.0 }));
    assert_eq!(pp.next_back(), Some(TestData::B(1, 1.0)));
    assert_eq!(pp.next(), Some(TestData::B(1, 1.0)));
    assert_eq!(pp.next_back(), Some(TestData::A { u: 1, f: 1.0 }));
    assert_eq!(pp.next(), Some(TestData::A { u: 1, f: 1.0 }));
    assert_eq!(pp.next_back(), Some(TestData::B(1, 1.0)));
    assert_eq!(pp.next(), None);
    assert_eq!(pp.next_back(), None);
}

#[test]
fn new_is_empty() {
    let pp = Peapod::<TestData>::new();
    assert_eq!(pp.len(), 0);
    assert_eq!(pp.capacity(), 0);
}

#[test]
fn push_increases_len() {
    let mut pp = Peapod::<TestData>::new();
    pp.push(TestData::A { u: 1, f: 1.0 });
    pp.push(TestData::A { u: 1, f: 1.0 });
    pp.push(TestData::A { u: 1, f: 1.0 });
    pp.push(TestData::A { u: 1, f: 1.0 });
    assert_eq!(pp.len(), 4);
}

#[test]
fn pop_works() {
    let mut pp = Peapod::<TestData>::new();
    assert_eq!(pp.pop(), None);
    pp.push(TestData::A { u: 1, f: 1.0 });
    assert_eq!(pp.pop(), Some(TestData::A { u: 1, f: 1.0 }));
}

#[test]
fn clear_clears_empty() {
    let mut pp = Peapod::<TestData>::new();
    pp.clear();
    assert_eq!(pp.len(), 0);
    assert_eq!(pp.capacity(), 0);
}

#[test]
fn clear_clears_nonempty() {
    let mut pp = Peapod::<TestData>::new();
    pp.push(TestData::A { u: 1, f: 1.0 });
    pp.push(TestData::A { u: 1, f: 1.0 });
    pp.push(TestData::A { u: 1, f: 1.0 });
    pp.push(TestData::A { u: 1, f: 1.0 });
    pp.clear();
    assert_eq!(pp.len(), 0);
}

#[test]
fn tags_follow_the_values() {
    let mut pp = Peapod::<TestData>::new();
    pp.push(TestData::B(7, 2.5));
    pp.push(TestData::C);
    pp.push(TestData::A { u: 3, f: 0.5 });
    pp.push(TestData::C);
    assert_eq!(pp.tags(), vec![1, 2, 0, 2]);
    assert_eq!(pp.tag_bit_len(), 8);
    assert_eq!(pp.pop(), Some(TestData::C));
    assert_eq!(pp.tags(), vec![1, 2, 0]);
    assert_eq!(pp.tag_bit_len(), 6);
}
