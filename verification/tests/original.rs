use dvec::DVec;

#[test]
fn test_resize() {
    let mut v = DVec::<i32>::with_capacity(2);
    v.push_front(1);
    v.push_front(2);
    v.resize(4);
}

#[test]
fn it_works() {
    DVec::<usize>::with_capacity(20);
    let mut v = DVec::<usize>::new();
    v.push_front(1);
    v.push_back(2);
}

#[test]
fn test_macro() {
    DVec::from_elem(String::from("abc"), 10);
    DVec::from_vec(vec![String::from("foo"), String::from("bar"), String::from("baz")]);
    let _x: DVec<()> = DVec::from_vec(vec![]);
}
