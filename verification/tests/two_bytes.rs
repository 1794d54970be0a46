use represent::{MakeType, MakeWith, Maker, VisitType, VisitWith, Visitor};

#[derive(Debug)]
struct Bytes {
    buf: Vec<u8>,
}

impl Visitor for Bytes {
    type Error = ();
}

impl VisitType<u8> for Bytes {
    fn visit(&mut self, target: &u8) -> Result<(), ()> {
        self.buf.push(*target);
        Ok(())
    }
}

impl Maker for Bytes {
    type Error = ();
}

impl MakeType<u8> for Bytes {
    fn make_type(&mut self) -> Result<u8, ()> {
        if self.buf.is_empty() {
            Err(())
        } else {
            Ok(self.buf.remove(0))
        }
    }
}

impl<T: VisitWith<Self>> VisitType<T> for Bytes {
    fn visit(&mut self, target: &T) -> Result<(), <Self as Visitor>::Error> {
        target.visit_with(self)
    }
}

impl<T: MakeWith<Bytes>> MakeType<T> for Bytes {
    fn make_type(&mut self) -> Result<T, ()> {
        T::make_with(self)
    }
}

#[derive(Debug, PartialEq)]
struct TwoBytes {
    first: u8,
    second: u8,
}

impl<V> VisitWith<V> for TwoBytes
where
    V: Visitor + VisitType<u8>,
{
    fn visit_with(&self, visitor: &mut V) -> Result<(), <V as Visitor>::Error> {
        visitor.visit_keyed("first", &self.first)?;
        visitor.visit_keyed("second", &self.second)?;
        Ok(())
    }
}

impl<M> MakeWith<M> for TwoBytes
where
    M: Maker + MakeType<u8>,
{
    fn make_with(maker: &mut M) -> Result<Self, <M as Maker>::Error> {
        Ok(Self {
            first: maker.make_keyed("first")?,
            second: maker.make_keyed("second")?,
        })
    }
}

#[derive(Debug, PartialEq)]
enum SumType {
    One(u8, u8),
    Two { _foo: u8, _bar: u8 },
    Three,
}

impl<V> VisitWith<V> for SumType
where
    V: Visitor + VisitType<u8>,
{
    fn visit_with(&self, visitor: &mut V) -> Result<(), <V as Visitor>::Error> {
        match self {
            SumType::One(first, second) => visitor.with_key("One".into(), |visitor| {
                visitor.visit_keyed(0usize, first)?;
                visitor.visit_keyed(1usize, second)?;
                Ok(())
            }),
            SumType::Two { _foo, _bar } => visitor.with_key("Two".into(), |visitor| {
                visitor.visit_keyed("_foo", _foo)?;
                visitor.visit_keyed("_bar", _bar)?;
                Ok(())
            }),
            SumType::Three => visitor.with_key("Three".into(), |_visitor| Ok(())),
        }
    }
}

impl<M> MakeWith<M> for SumType
where
    M: Maker + MakeType<u8>,
    (): Into<M::Error>,
{
    fn make_with(maker: &mut M) -> Result<Self, <M as Maker>::Error> {
        let alt: u8 = MakeType::make_type(maker)?;
        match alt {
            1 => Ok(maker.with_key("One".into(), |maker| {
                Ok(Self::One(maker.make_keyed(0usize)?, maker.make_keyed(1usize)?))
            })?),
            2 => Ok(maker.with_key("Two".into(), |maker| {
                Ok(Self::Two {
                    _foo: maker.make_keyed("_foo")?,
                    _bar: maker.make_keyed("_bar")?,
                })
            })?),
            3 => Ok(maker.with_key("Three".into(), |_maker| Ok(Self::Three))?),
            _ => Err(().into()),
        }
    }
}

#[test]
fn visit_and_remake() {
    let mut bytes = Bytes { buf: vec![] };
    let two_bytes = TwoBytes {
        first: 1,
        second: 2,
    };

    bytes.visit(&two_bytes).unwrap();
    assert_eq!(&bytes.buf, &[1, 2]);

    let new_two_bytes: TwoBytes = bytes.make().unwrap();
    assert_eq!(&two_bytes, &new_two_bytes);
}

fn st<S: AsRef<[u8]>>(slice: S, res: Result<SumType, ()>) {
    let mut bytes = Bytes {
        buf: slice.as_ref().into(),
    };
    let sum_type: Result<SumType, ()> = bytes.make();
    assert_eq!(&sum_type, &res);
}

#[test]
fn make_sum_type() {
    st([1, 2, 3], Ok(SumType::One(2, 3)));
    st([2, 3, 4], Ok(SumType::Two { _foo: 3, _bar: 4 }));
    st([3], Ok(SumType::Three));

    st([0], Err(()));
    st([4], Err(()));
    st([1], Err(()));
    st([1, 2], Err(()));
    st([2], Err(()));
    st([2, 3], Err(()));
}

#[test]
fn it_works() {
    assert_eq!(2 + 2, 4);
}
