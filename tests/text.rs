use mpsc_queue::{LockFreeQueue, Q64Vec, ReferenceQueue, TextError, Q64};

#[test]
fn scalar_from_text() {
    assert_eq!(Q64::from_text("123"), Ok(Q64(123)));
    assert_eq!(Q64::from_text("-4294967296"), Ok(Q64::from_i32(-1)));
    assert_eq!(Q64::from_text("+7"), Ok(Q64(7)));
    assert_eq!(Q64::from_text("9223372036854775807"), Ok(Q64(i64::MAX)));
    assert_eq!(Q64::from_text("9223372036854775808"), Err(TextError::InvalidNumber));
    assert_eq!(Q64::from_text(""), Err(TextError::InvalidNumber));
    assert_eq!(Q64::from_text("-"), Err(TextError::InvalidNumber));
    assert_eq!(Q64::from_text(" 1"), Err(TextError::InvalidNumber));
    assert_eq!(Q64::from_text("1.5"), Err(TextError::InvalidNumber));
}

#[test]
fn vector_from_text() {
    assert_eq!(
        Q64Vec::from_text("530242871224,-3388815425421"),
        Ok(Q64Vec::new(Q64(530242871224), Q64(-3388815425421)))
    );
    assert_eq!(Q64Vec::from_text("0,0"), Ok(Q64Vec::from_i32(0, 0)));
    assert_eq!(Q64Vec::from_text("5"), Err(TextError::MissingPart));
    assert_eq!(Q64Vec::from_text("1,2,3"), Err(TextError::TooManyParts));
    assert_eq!(Q64Vec::from_text("1,2,"), Err(TextError::TooManyParts));
    assert_eq!(Q64Vec::from_text("x,2"), Err(TextError::InvalidNumber));
    assert_eq!(Q64Vec::from_text("1,y,3"), Err(TextError::InvalidNumber));
    assert_eq!(Q64Vec::from_text(""), Err(TextError::InvalidNumber));
    assert_eq!(Q64Vec::from_text(",1"), Err(TextError::InvalidNumber));
    assert_eq!(Q64Vec::from_text("1,"), Err(TextError::InvalidNumber));
}

#[test]
fn queues_describe_their_ends() {
    let mut r = ReferenceQueue::new();
    assert_eq!(r.format(), "head=None tail=None");
    r.push(1);
    r.push(2);
    assert_eq!(r.format(), "head=Some(0) tail=Some(1)");
    let mut l = LockFreeQueue::new();
    l.push(1);
    assert_eq!(l.pop(), Some(1));
    assert_eq!(l.format(), "head=Some(0) tail=Some(0)");
}
