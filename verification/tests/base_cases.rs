// The base cases: a default-constructed record with a per-field override,
// and round trips of a structured record and a fast-path record. The
// impls written out here by hand follow the shapes a compile-time
// generator would emit for these declarations.

use quick_ser::QuickSer;
use quick_ser::RealQuickSer;

#[derive(PartialEq, Eq, Debug)]
pub struct NonDefault(u8);

#[derive(PartialEq, Eq, Debug)]
pub struct QuickDefaultBaseCase {
    tuple: (u32, u32, u32),
    string: String,
    option: Option<NonDefault>,
    non_default: NonDefault,
}

impl Default for QuickDefaultBaseCase {
    fn default() -> Self {
        Self {
            tuple: Default::default(),
            string: Default::default(),
            option: Default::default(),
            non_default: NonDefault(1),
        }
    }
}

#[test]
fn default_base_case() {
    let a = QuickDefaultBaseCase::default();
    let b = QuickDefaultBaseCase {
        tuple: Default::default(),
        string: Default::default(),
        option: Default::default(),
        non_default: NonDefault(1),
    };

    assert_eq!(a, b);
}

#[derive(PartialEq, Eq, Debug)]
pub struct QuickSerBaseCase {
    indices: Vec<usize>,
    data: Vec<u8>,
    tuple: (u8, u8, u8),
    tuple_opt: Option<(u8, u8, u8)>,
    tuple_vec: Vec<(u8, u8, u8)>,
    tuple_vec_opt: Vec<Option<(u8, u8, u8)>>,
}

impl vstd::view::DeepView for QuickSerBaseCase {
    type V = QuickSerBaseCase;

    fn deep_view(&self) -> Self::V {
        unreachable!()
    }
}

impl QuickSer for QuickSerBaseCase {
    // ghost members of the verified contract; never called at runtime
    fn wire(&self) -> vstd::seq::Seq<u8> {
        unreachable!()
    }

    fn is_quick() -> bool {
        false
    }

    fn quick_size() -> vstd::prelude::nat {
        unreachable!()
    }

    fn lemma_quick_wire(&self) {}

    fn lemma_prefix_free(&self, _other: &Self) {}

    fn quick() -> bool {
        false
    }

    fn quick_size_bytes() -> usize {
        0
    }

    fn ser(&self, buffer: &mut Vec<u8>) {
        QuickSer::ser(&self.indices, buffer);
        QuickSer::ser(&self.data, buffer);
        QuickSer::ser(&self.tuple, buffer);
        QuickSer::ser(&self.tuple_opt, buffer);
        QuickSer::ser(&self.tuple_vec, buffer);
        QuickSer::ser(&self.tuple_vec_opt, buffer);
    }

    fn de_ser(progress: &mut usize, buffer: &[u8]) -> Self {
        Self {
            indices: QuickSer::de_ser(progress, buffer),
            data: QuickSer::de_ser(progress, buffer),
            tuple: QuickSer::de_ser(progress, buffer),
            tuple_opt: QuickSer::de_ser(progress, buffer),
            tuple_vec: QuickSer::de_ser(progress, buffer),
            tuple_vec_opt: QuickSer::de_ser(progress, buffer),
        }
    }
}

#[derive(Clone, Copy, PartialEq, Eq, Debug)]
pub struct RealQuickSerBaseCase {
    tuple: (u8, u8, u8),
    uint: u8,
    uint_opt: Option<u8>,
    usize: usize,
}

impl vstd::view::DeepView for RealQuickSerBaseCase {
    type V = RealQuickSerBaseCase;

    fn deep_view(&self) -> Self::V {
        unreachable!()
    }
}

impl RealQuickSer for RealQuickSerBaseCase {
    // ghost members of the verified contract; never called at runtime
    fn size() -> vstd::prelude::nat {
        unreachable!()
    }

    fn image(&self) -> vstd::seq::Seq<u8> {
        unreachable!()
    }

    fn from_image(_bytes: vstd::seq::Seq<u8>) -> Self {
        unreachable!()
    }

    fn lemma_image(&self) {}

    fn size_bytes() -> usize {
        <(u8, u8, u8)>::size_bytes() + u8::size_bytes() + 2 + usize::size_bytes()
    }

    fn write_image(&self, buffer: &mut Vec<u8>) {
        self.tuple.write_image(buffer);
        self.uint.write_image(buffer);
        QuickSer::ser(&self.uint_opt, buffer);
        self.usize.write_image(buffer);
    }

    fn read_image(progress: &mut usize, buffer: &[u8]) -> Self {
        Self {
            tuple: <(u8, u8, u8)>::read_image(progress, buffer),
            uint: u8::read_image(progress, buffer),
            uint_opt: QuickSer::de_ser(progress, buffer),
            usize: usize::read_image(progress, buffer),
        }
    }
}

#[test]
fn ser_base_case() {
    let a = QuickSerBaseCase {
        indices: vec![1, 2, 3],
        data: vec![4, 5, 6],
        tuple: (7, 8, 9),
        tuple_opt: Some((10, 11, 12)),
        tuple_vec: vec![(13, 14, 15), (16, 17, 18)],
        tuple_vec_opt: vec![Some((19, 20, 21)), None],
    };

    test_ser_de(&a);

    let b = RealQuickSerBaseCase {
        tuple: (22, 23, 24),
        uint: 25,
        uint_opt: Some(26),
        usize: 27,
    };

    test_ser_de(&b);
}

fn test_ser_de<T: QuickSer + PartialEq<T> + Eq + std::fmt::Debug>(t: &T) {
    let mut buffer = Vec::new();
    t.ser(&mut buffer);
    let mut progress = 0;
    let result = T::de_ser(&mut progress, &buffer);
    assert_eq!(progress, buffer.len());
    assert_eq!(&result, t);
}
