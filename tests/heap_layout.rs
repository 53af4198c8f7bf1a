#[derive(Debug)]
struct A {
    pub value: Vec<u32>,
    pub name: String,
}

#[test]
fn test_layout_ptr() {
    let layout = std::alloc::Layout::new::<A>();
    let a = {
        A {
            value: vec![1, 2, 3],
            name: "hello".to_string(),
        }
    };
    let slot: Box<A> = Box::new(a);
    assert_eq!(std::alloc::Layout::for_value(&*slot), layout);
    let read_a = *slot;
    println!("read_a: {:?}", read_a.name);
    assert_eq!(read_a.value, vec![1, 2, 3]);
    assert_eq!(read_a.name, "hello");
}

pub struct B {
    pub id: u32,
}

pub trait GetId {
    fn get_id(&self) -> u32;
}

impl GetId for B {
    fn get_id(&self) -> u32 {
        self.id
    }
}

#[test]
fn test_struct() {
    let a = Box::new(B { id: 1 });
    println!("=======>a:{:p}", &a);
    let layout = std::alloc::Layout::new::<Box<B>>();
    let outer: Box<Box<B>> = Box::new(a);
    assert_eq!(std::alloc::Layout::for_value(&*outer), layout);
    let b: &mut Box<B> = Box::leak(outer);
    println!("=======>b:{:?}", b.get_id());
    assert_eq!(b.get_id(), 1);
}
