use mini_rx::{RxDAG, RxInput};
use std::cell::{Cell, RefCell};

fn new_dag<'c, V>() -> RxDAG<'c, V> {
    let mut counter = 0;
    RxDAG::new(&mut counter)
}

/// The kinds of values that the cells of the graphs below hold.
#[derive(Debug, Clone, PartialEq)]
enum Val {
    Int(i32),
    Float(f64),
    List(Vec<i32>),
    Bytes(Vec<u8>),
    Str(&'static str),
    Text(String),
}

impl Val {
    fn as_int(&self) -> i32 {
        match self {
            Val::Int(x) => *x,
            other => panic!("not an int: {:?}", other),
        }
    }

    fn as_float(&self) -> f64 {
        match self {
            Val::Float(x) => *x,
            other => panic!("not a float: {:?}", other),
        }
    }

    fn as_list(&self) -> &Vec<i32> {
        match self {
            Val::List(x) => x,
            other => panic!("not a list: {:?}", other),
        }
    }

    fn as_bytes(&self) -> &Vec<u8> {
        match self {
            Val::Bytes(x) => x,
            other => panic!("not bytes: {:?}", other),
        }
    }

    fn as_str(&self) -> &'static str {
        match self {
            Val::Str(x) => x,
            other => panic!("not a str: {:?}", other),
        }
    }
}

#[test]
fn test_rx() {
    let side_effect = Cell::new(1);

    let mut g = new_dag::<i32>();
    let rx = g.new_var(1);
    let crx = g.new_crx(move |g: &mut RxInput<'_, i32>| *rx.get(g) * 2);
    let side_effect_ref = &side_effect;
    g.run_crx(move |g: &mut RxInput<'_, i32>| {
        side_effect_ref.set(side_effect_ref.get() + *crx.get(g));
    });
    assert_eq!(rx.get(&mut g.stale()), &1);
    assert_eq!(crx.get(&mut g.stale()), &2);
    assert_eq!(side_effect.get(), 3);

    rx.set(&mut g, 2);
    assert_eq!(rx.get(&mut g.stale()), &1);
    assert_eq!(crx.get(&mut g.stale()), &2);
    assert_eq!(side_effect.get(), 3);
    g.recompute();
    assert_eq!(rx.get(&mut g.stale()), &2);
    assert_eq!(crx.get(&mut g.stale()), &4);
    assert_eq!(side_effect.get(), 7);

    rx.set(&mut g, 4);
    assert_eq!(rx.get(&mut g.stale()), &2);
    assert_eq!(crx.get(&mut g.stale()), &4);
    assert_eq!(side_effect.get(), 7);
    g.recompute();
    assert_eq!(rx.get(&mut g.stale()), &4);
    assert_eq!(crx.get(&mut g.stale()), &8);
    assert_eq!(side_effect.get(), 15);
}

#[test]
fn test_rx_modify() {
    let mut g = new_dag::<i32>();
    let rx = g.new_var(1);
    let crx = g.new_crx(move |g: &mut RxInput<'_, i32>| *rx.get(g) * 2);
    let side_effect = Cell::new(1);
    let side_effect2 = &side_effect;
    g.run_crx(move |g: &mut RxInput<'_, i32>| {
        side_effect2.set(side_effect2.get() + crx.get(g));
    });
    assert_eq!(rx.get(&mut g.now()), &1);
    assert_eq!(crx.get(&mut g.now()), &2);
    assert_eq!(side_effect.get(), 3);

    rx.modify(&mut g, |g| g + 3);
    rx.modify(&mut g, |g| g + 5);
    assert_eq!(rx.get(&mut g.now()), &9);
    assert_eq!(crx.get(&mut g.now()), &18);
    assert_eq!(side_effect.get(), 21);

    // The graph holds a borrow of `side_effect`, so it has to go first.
    drop(g);
}

#[test]
fn test_rx_multiple_inputs_outputs() {
    let mut g = new_dag::<Val>();
    let rx = g.new_var(Val::Int(1));
    let rx2 = g.new_var(Val::Int(2));
    let rx3 = g.new_var(Val::List(vec![3, 4]));
    {
        let crx = g.new_crx(move |g: &mut RxInput<'_, Val>| {
            Val::List(vec![rx.get(g).as_int() * 10, rx2.get(g).as_int() * 10])
        });
        let crx2 = g.new_crx(move |g: &mut RxInput<'_, Val>| {
            let mut vec = Vec::new();
            vec.push(rx.get(g).as_int());
            for elem in rx3.get(g).as_list().iter().copied() {
                vec.push(elem)
            }
            for elem in crx.get(g).as_list().iter().copied() {
                vec.push(elem)
            }
            Val::List(vec)
        });
        let (crx3_1, crx3_2) = g.new_crx2(move |g: &mut RxInput<'_, Val>| {
            let vec = crx.get(g).as_list();
            (Val::Int(vec[0] * 10), Val::Int(vec[1] * 10))
        });
        let (crx4_1, crx4_2, crx4_3) = g.new_crx3(move |g: &mut RxInput<'_, Val>| {
            let v2 = rx.get(g).as_int();
            let v3 = crx3_2.get(g).as_int();
            let v4 = rx3.get(g).as_list()[0];
            (Val::Int(v2), Val::Int(v3), Val::Int(v4 * 100))
        });

        assert_eq!(rx.get(&mut g.now()), &Val::Int(1));
        assert_eq!(rx2.get(&mut g.now()), &Val::Int(2));
        assert_eq!(rx3.get(&mut g.now()), &Val::List(vec![3, 4]));
        assert_eq!(crx.get(&mut g.now()), &Val::List(vec![10, 20]));
        assert_eq!(crx2.get(&mut g.now()), &Val::List(vec![1, 3, 4, 10, 20]));
        assert_eq!(crx3_1.get(&mut g.now()), &Val::Int(100));
        assert_eq!(crx3_2.get(&mut g.now()), &Val::Int(200));
        assert_eq!(crx4_1.get(&mut g.now()), &Val::Int(1));
        assert_eq!(crx4_2.get(&mut g.now()), &Val::Int(200));
        assert_eq!(crx4_3.get(&mut g.now()), &Val::Int(300));

        rx.set(&mut g, Val::Int(5));
        rx2.set(&mut g, Val::Int(6));
        rx3.set(&mut g, Val::List(vec![7, 8, 9]));
        g.recompute();

        assert_eq!(rx.get(&mut g.now()), &Val::Int(5));
        assert_eq!(rx2.get(&mut g.now()), &Val::Int(6));
        assert_eq!(rx3.get(&mut g.now()), &Val::List(vec![7, 8, 9]));
        assert_eq!(crx.get(&mut g.now()), &Val::List(vec![50, 60]));
        assert_eq!(crx2.get(&mut g.now()), &Val::List(vec![5, 7, 8, 9, 50, 60]));
        assert_eq!(crx3_1.get(&mut g.now()), &Val::Int(500));
        assert_eq!(crx3_2.get(&mut g.now()), &Val::Int(600));
        assert_eq!(crx4_1.get(&mut g.now()), &Val::Int(5));
        assert_eq!(crx4_2.get(&mut g.now()), &Val::Int(600));
        assert_eq!(crx4_3.get(&mut g.now()), &Val::Int(700));
    }
}

#[test]
fn test_drx_split() {
    let mut g = new_dag::<Vec<i32>>();
    let rx = g.new_var(vec![1, 2, 3]);
    {
        let drx0 = rx.derive_using_clone(|x: &Vec<i32>| &x[0], |x: &mut Vec<i32>, new: i32| {
            x[0] = new;
        });
        let drx1 = rx.derive_using_clone(|x: &Vec<i32>| &x[1], |x: &mut Vec<i32>, new: i32| {
            x[1] = new;
        });
        let drx2 = rx.derive_using_clone(|x: &Vec<i32>| &x[2], |x: &mut Vec<i32>, new: i32| {
            x[2] = new;
        });
        assert_eq!(drx0.get(&mut g.now()), &1);
        assert_eq!(drx1.get(&mut g.now()), &2);
        assert_eq!(drx2.get(&mut g.now()), &3);
        drx0.set(&mut g, 2);
        drx1.set(&mut g, 3);
        drx2.set(&mut g, 4);
    }
    assert_eq!(rx.get(&mut g.now()), &vec![2, 3, 4]);
}

#[test]
fn test_crx() {
    let mut g = new_dag::<Val>();
    let rx = g.new_var(Val::List(vec![1, 2, 3]));
    {
        let crx = g.new_crx(move |g: &mut RxInput<'_, Val>| Val::Int(rx.get(g).as_list()[0] * 2));
        let crx2 = g.new_crx(move |g: &mut RxInput<'_, Val>| {
            Val::Int(crx.get(g).as_int() + rx.get(g).as_list()[1] * 10)
        });
        let crx3 =
            g.new_crx(move |g: &mut RxInput<'_, Val>| Val::Text(crx2.get(g).as_int().to_string()));
        assert_eq!(*crx.get(&mut g.now()), Val::Int(2));
        assert_eq!(*crx2.get(&mut g.now()), Val::Int(22));
        assert_eq!(*crx3.get(&mut g.now()), Val::Text("22".to_string()));
        rx.set(&mut g, Val::List(vec![2, 3, 4]));
        assert_eq!(*crx.get(&mut g.now()), Val::Int(4));
        assert_eq!(*crx2.get(&mut g.now()), Val::Int(34));
        assert_eq!(*crx3.get(&mut g.now()), Val::Text("34".to_string()));
        rx.set(&mut g, Val::List(vec![3, 4, 5]));
        assert_eq!(*crx.get(&mut g.now()), Val::Int(6));
        assert_eq!(*crx2.get(&mut g.now()), Val::Int(46));
        assert_eq!(*crx3.get(&mut g.now()), Val::Text("46".to_string()));
    }
}

#[test]
fn test_readme() {
    // setup
    let side_effect = Cell::new(0);
    let side_effect2 = RefCell::new(String::new());

    // The centralized data dependency graph
    let mut g = new_dag::<Val>();

    // Create variables which you can set
    let var1 = g.new_var(Val::Int(1));
    let var2 = g.new_var(Val::Str("hello"));
    assert_eq!(var1.get(&mut g.now()), &Val::Int(1));
    assert_eq!(var2.get(&mut g.now()), &Val::Str("hello"));
    var1.set(&mut g, Val::Int(2));
    var2.set(&mut g, Val::Str("world"));
    assert_eq!(var1.get(&mut g.now()), &Val::Int(2));
    assert_eq!(var2.get(&mut g.now()), &Val::Str("world"));

    // Create computed values which depend on these variables...
    let crx1 = g.new_crx(move |g: &mut RxInput<'_, Val>| Val::Int(var1.get(g).as_int() * 2));
    // ...and other Rxs
    let crx2 = g.new_crx(move |g: &mut RxInput<'_, Val>| {
        Val::Text(format!("{}-{}", var2.get(g).as_str(), crx1.get(g).as_int() * 2))
    });
    // ...and create multiple values which are computed from a single function
    let (crx3, crx4) = g.new_crx2(move |g: &mut RxInput<'_, Val>| {
        let (head, tail) = var2.get(g).as_str().split_at(3);
        (Val::Str(head), Val::Str(tail))
    });
    assert_eq!(crx1.get(&mut g.now()), &Val::Int(4));
    assert_eq!(crx2.get(&mut g.now()), &Val::Text("world-8".to_string()));
    assert_eq!(crx3.get(&mut g.now()), &Val::Str("wor"));
    assert_eq!(crx4.get(&mut g.now()), &Val::Str("ld"));
    var1.set(&mut g, Val::Int(3));
    var2.set(&mut g, Val::Str("rust"));
    assert_eq!(crx1.get(&mut g.now()), &Val::Int(6));
    assert_eq!(crx2.get(&mut g.now()), &Val::Text("rust-12".to_string()));
    assert_eq!(crx3.get(&mut g.now()), &Val::Str("rus"));
    assert_eq!(crx4.get(&mut g.now()), &Val::Str("t"));

    // Run side effects when a value is recomputed
    let var3 = g.new_var(Val::Bytes(Vec::from("abc")));
    let side_effect_ref = &side_effect;
    let side_effect_ref2 = &side_effect2;
    // borrowed values must outlive g but don't have to be static
    g.run_crx(move |g: &mut RxInput<'_, Val>| {
        side_effect_ref.set(side_effect_ref.get() + var1.get(g).as_int());
        side_effect_ref2.borrow_mut().push_str(&String::from_utf8_lossy(var3.get(g).as_bytes()));
    });
    assert_eq!(side_effect.get(), 3);
    assert_eq!(&*side_effect2.borrow(), &"abc");
    var1.set(&mut g, Val::Int(4));
    g.recompute();

    assert_eq!(side_effect.get(), 7);
    assert_eq!(&*side_effect2.borrow(), &"abcabc");

    // Note that the dependencies aren't updated until .recompute or .now is called...
    var3.set(&mut g, Val::Bytes(Vec::from("xyz")));
    assert_eq!(side_effect.get(), 7);
    assert_eq!(&*side_effect2.borrow(), &"abcabc");
    g.recompute();
    assert_eq!(side_effect.get(), 11);
    assert_eq!(&*side_effect2.borrow(), &"abcabcxyz");

    // the side-effect also doesn't trigger when none of its dependencies change
    var2.set(&mut g, Val::Str("rust-lang"));
    g.recompute();
    assert_eq!(side_effect.get(), 11);
    assert_eq!(&*side_effect2.borrow(), &"abcabcxyz");
    assert_eq!(crx2.get(&mut g.now()), &Val::Text("rust-lang-16".to_string()));

    // lastly we can create derived values which will access or mutate part of the base value
    // which are useful to pass to children
    let dvar = var3.derive_using_clone(
        |x: &Val| &x.as_bytes()[0],
        |x: &mut Val, char: u8| {
            if let Val::Bytes(bytes) = x {
                bytes[0] = char;
            }
        },
    );
    assert_eq!(dvar.get(&mut g.now()), &b'x');
    dvar.set(&mut g, b'b');
    assert_eq!(dvar.get(&mut g.now()), &b'b');
    assert_eq!(var3.get(&mut g.now()).as_bytes(), &b"byz");
    dvar.set(&mut g, b'f');
    assert_eq!(dvar.get(&mut g.now()), &b'f');
    assert_eq!(var3.get(&mut g.now()).as_bytes(), &b"fyz");
    assert_eq!(&*side_effect2.borrow(), &"abcabcxyzbyzfyz");
}

#[test]
fn stream_like() {
    let stream = RefCell::new(Vec::new());
    let stream_ref = &stream;
    let input1 = vec![1, 2, 3];
    let input2 = vec![0.5, 0.4, 0.8];

    let mut g = new_dag::<Val>();
    let var1 = g.new_var(Val::Int(0));
    let var2 = g.new_var(Val::Float(0.0));
    let crx = g.new_crx(move |g: &mut RxInput<'_, Val>| {
        Val::Float(var1.get(g).as_int() as f64 + var2.get(g).as_float())
    });

    g.run_crx(move |g: &mut RxInput<'_, Val>| {
        stream_ref.borrow_mut().push(crx.get(g).as_float());
    });

    assert_eq!(&*stream.borrow(), &vec![0.0]);
    for (a, b) in input1.iter().zip(input2.iter()) {
        var1.set(&mut g, Val::Int(*a));
        var2.set(&mut g, Val::Float(*b));
        g.recompute();
    }
    assert_eq!(&*stream.borrow(), &vec![0.0, 1.5, 2.4, 3.8]);
}
