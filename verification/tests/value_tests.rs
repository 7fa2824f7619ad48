use misri::value::Fault;
use misri::value::Heap;
use misri::value::Value;

#[test]
fn value_test_int() {
    let v1 = Value::new_int(114);
    let v2 = Value::new_int(514);
    assert_eq!((v1 + v2).unwrap(), Value::new_int(114 + 514))
}

#[test]
fn test_ptr() {
    let mut heap = Heap::new();
    let p1 = Value::new_ptr(&mut heap, 4);
    let offset = Value::new_int(2);

    p1.store(&mut heap, Value::ValInt(114)).unwrap();
    assert_eq!(p1.load(&heap).unwrap(), Value::ValInt(114));

    let p2 = (p1.clone() + offset).unwrap();
    assert_eq!(p2.load(&heap).unwrap(), Value::ValInt(0));

    p2.store(&mut heap, Value::ValInt(514)).unwrap();
    assert_eq!(p2.load(&heap).unwrap(), Value::ValInt(514));
    assert_eq!(p1.load(&heap).unwrap(), Value::ValInt(114))
}

#[test]
fn integer_arithmetic() {
    let a = Value::new_int(-7);
    let b = Value::new_int(2);
    assert_eq!(a + b, Ok(Value::ValInt(-5)));
    assert_eq!(a - b, Ok(Value::ValInt(-9)));
    assert_eq!(a * b, Ok(Value::ValInt(-14)));
    assert_eq!(a / b, Ok(Value::ValInt(-3)));
    assert_eq!(Value::new_int(7) / Value::new_int(-2), Ok(Value::ValInt(-3)));
    assert_eq!(Value::new_int(-7) / Value::new_int(-2), Ok(Value::ValInt(3)));
}

#[test]
fn division_by_zero_faults() {
    assert_eq!(Value::new_int(1) / Value::new_int(0), Err(Fault::InvalidOperation));
    let mut heap = Heap::new();
    let p = Value::new_ptr(&mut heap, 2);
    assert_eq!(p / Value::new_int(0), Err(Fault::InvalidOperation));
    assert_eq!(Value::new_int(0) / p, Err(Fault::InvalidOperation));
}

#[test]
fn results_that_do_not_fit_fault() {
    assert_eq!(Value::new_int(i64::MAX) + Value::new_int(1), Err(Fault::InvalidOperation));
    assert_eq!(Value::new_int(i64::MIN) - Value::new_int(1), Err(Fault::InvalidOperation));
    assert_eq!(Value::new_int(i64::MAX) * Value::new_int(2), Err(Fault::InvalidOperation));
    assert_eq!(Value::new_int(i64::MIN) / Value::new_int(-1), Err(Fault::InvalidOperation));
    assert_eq!(
        Value::new_int(i64::MAX) + Value::new_int(0),
        Ok(Value::ValInt(i64::MAX))
    );
}

#[test]
fn pointer_arithmetic_keeps_the_buffer() {
    let mut heap = Heap::new();
    let _other = Value::new_ptr(&mut heap, 1);
    let p = Value::new_ptr(&mut heap, 8);
    assert_eq!(p, Value::ValPtr { mem: 1, size: 8, ptr: 0 });
    let q = (p + Value::new_int(3)).unwrap();
    assert_eq!(q, Value::ValPtr { mem: 1, size: 8, ptr: 3 });
    assert_eq!((Value::new_int(3) + p).unwrap(), q);
    assert_eq!((q - Value::new_int(3)).unwrap(), p);
    assert_eq!(
        (Value::new_int(5) - q).unwrap(),
        Value::ValPtr { mem: 1, size: 8, ptr: 2 }
    );
    assert_eq!(
        (q * Value::new_int(2)).unwrap(),
        Value::ValPtr { mem: 1, size: 8, ptr: 6 }
    );
    assert_eq!(
        (Value::new_int(2) * q).unwrap(),
        Value::ValPtr { mem: 1, size: 8, ptr: 6 }
    );
    assert_eq!(
        (q / Value::new_int(2)).unwrap(),
        Value::ValPtr { mem: 1, size: 8, ptr: 1 }
    );
    assert_eq!(
        (Value::new_int(3) / q).unwrap(),
        Value::ValPtr { mem: 1, size: 8, ptr: 1 }
    );
}

#[test]
fn pointer_with_pointer_faults() {
    let mut heap = Heap::new();
    let p = Value::new_ptr(&mut heap, 2);
    let q = Value::new_ptr(&mut heap, 2);
    assert_eq!(p + q, Err(Fault::InvalidOperation));
    assert_eq!(p - q, Err(Fault::InvalidOperation));
    assert_eq!(p * q, Err(Fault::InvalidOperation));
    assert_eq!(p / q, Err(Fault::InvalidOperation));
}

#[test]
fn aliases_share_cells() {
    let mut heap = Heap::new();
    let p = Value::new_ptr(&mut heap, 6);
    let q = (p + Value::new_int(4)).unwrap();
    q.store(&mut heap, Value::new_int(514)).unwrap();
    let again = (p + Value::new_int(4)).unwrap();
    assert_eq!(again.load(&heap), Ok(Value::ValInt(514)));
    assert_eq!(p.load(&heap), Ok(Value::ValInt(0)));
    let back = (q - Value::new_int(4)).unwrap();
    back.store(&mut heap, Value::new_int(114)).unwrap();
    assert_eq!(p.load(&heap), Ok(Value::ValInt(114)));
}

#[test]
fn load_and_store_fault_off_the_buffer() {
    let mut heap = Heap::new();
    let p = Value::new_ptr(&mut heap, 2);
    let past = (p + Value::new_int(2)).unwrap();
    let before = (p - Value::new_int(1)).unwrap();
    assert_eq!(past.load(&heap), Err(Fault::InvalidOperation));
    assert_eq!(before.load(&heap), Err(Fault::InvalidOperation));
    assert_eq!(past.store(&mut heap, Value::new_int(1)), Err(Fault::InvalidOperation));
    assert_eq!(Value::new_int(0).load(&heap), Err(Fault::InvalidOperation));
    assert_eq!(
        Value::new_int(0).store(&mut heap, Value::new_int(1)),
        Err(Fault::InvalidOperation)
    );
    assert_eq!(p.store(&mut heap, p), Err(Fault::InvalidOperation));
    assert_eq!(p.load(&heap), Ok(Value::ValInt(0)));
    let dangling = Value::ValPtr { mem: 7, size: 2, ptr: 0 };
    assert_eq!(dangling.load(&heap), Err(Fault::InvalidOperation));
}

#[test]
fn buffers_are_counted() {
    let mut heap = Heap::new();
    assert_eq!(heap.len(), 0);
    assert_eq!(heap.allocate(3), 0);
    assert_eq!(heap.allocate(0), 1);
    assert_eq!(heap.len(), 2);
    assert_eq!(heap.read(0, 2), Some(0));
    assert_eq!(heap.read(0, 3), None);
    assert_eq!(heap.read(0, -1), None);
    assert_eq!(heap.read(1, 0), None);
    assert_eq!(heap.read(2, 0), None);
    assert!(heap.write(0, 2, 5));
    assert!(!heap.write(0, 3, 5));
    assert!(!heap.write(2, 0, 5));
    assert_eq!(heap.read(0, 2), Some(5));
    assert_eq!(heap.read(0, 1), Some(0));
}

#[test]
fn default_value_is_zero() {
    assert_eq!(Value::default(), Value::ValInt(0));
}

#[test]
fn rendering() {
    let mut heap = Heap::new();
    assert_eq!(Value::new_int(0).render(&heap).unwrap(), "0");
    assert_eq!(Value::new_int(-58596).render(&heap).unwrap(), "-58596");
    assert_eq!(
        Value::new_int(i64::MIN).render(&heap).unwrap(),
        "-9223372036854775808"
    );
    assert_eq!(
        Value::new_int(i64::MAX).render(&heap).unwrap(),
        "9223372036854775807"
    );
    let p = Value::new_ptr(&mut heap, 3);
    let q = (p + Value::new_int(1)).unwrap();
    q.store(&mut heap, Value::new_int(42)).unwrap();
    assert_eq!(q.render(&heap).unwrap(), "42");
    assert_eq!(p.render(&heap).unwrap(), "0");
    let past = (p + Value::new_int(3)).unwrap();
    assert_eq!(past.render(&heap), Err(Fault::InvalidOperation));
}

#[test]
fn alike_compares_cells() {
    let mut heap = Heap::new();
    let p = Value::new_ptr(&mut heap, 3);
    let q = Value::new_ptr(&mut heap, 3);
    assert!(p.alike(&q, &heap));
    assert_ne!(p, q);
    p.store(&mut heap, Value::new_int(1)).unwrap();
    assert!(!p.alike(&q, &heap));
    assert!(p.alike(&p, &heap));
    let r = Value::new_ptr(&mut heap, 4);
    assert!(!q.alike(&r, &heap));
    assert!(Value::new_int(3).alike(&Value::new_int(3), &heap));
    assert!(!Value::new_int(3).alike(&Value::new_int(4), &heap));
    assert!(!Value::new_int(0).alike(&q, &heap));
}
