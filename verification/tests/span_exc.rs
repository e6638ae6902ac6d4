#![allow(unused_imports)]

use std::cmp::Ordering;
use std::ops::Bound;

use mhrono::span::any::SpanAny;
use mhrono::span::endpoint::{Endpoint, EndpointConversion, EndpointSide};
use mhrono::span::exc::SpanExc;
use mhrono::span::inc::SpanInc;

#[test]
fn exc_ops() {
    let exc_0_2 = SpanExc::<i64>::new(0, 2);
    let exc_1_3 = SpanExc::<i64>::new(1, 3);
    let exc_2_4 = SpanExc::<i64>::new(2, 4);
    let exc_3_5 = SpanExc::<i64>::new(3, 5);
    let inc_0_2 = SpanExc::<i64>::inc(0, 2).unwrap();
    let inc_1_3 = SpanExc::<i64>::inc(1, 3).unwrap();
    let inc_2_4 = SpanExc::<i64>::inc(2, 4).unwrap();
    let inc_3_5 = SpanExc::<i64>::inc(3, 5).unwrap();
    let empty = SpanExc::<i64>::empty();

    // intersect:
    assert_eq!(exc_0_2.intersect(&exc_0_2), Some(SpanExc::new(0, 2)));
    assert_eq!(exc_0_2.intersect(&exc_1_3), Some(SpanExc::new(1, 2)));
    assert_eq!(exc_0_2.intersect(&exc_2_4), None);
    assert_eq!(exc_0_2.intersect(&exc_3_5), None);
    assert_eq!(exc_0_2.intersect(&inc_0_2), Some(SpanExc::new(0, 2)));
    assert_eq!(exc_0_2.intersect(&inc_1_3), Some(SpanExc::new(1, 2)));
    assert_eq!(exc_0_2.intersect(&inc_2_4), None);
    assert_eq!(exc_0_2.intersect(&inc_3_5), None);
    assert_eq!(exc_0_2.intersect(&empty), None);

    assert_eq!(exc_1_3.intersect(&exc_0_2), Some(SpanExc::new(1, 2)));
    assert_eq!(exc_1_3.intersect(&exc_1_3), Some(SpanExc::new(1, 3)));
    assert_eq!(exc_1_3.intersect(&exc_2_4), Some(SpanExc::new(2, 3)));
    assert_eq!(exc_1_3.intersect(&exc_3_5), None);
    assert_eq!(exc_1_3.intersect(&inc_0_2), Some(SpanExc::inc(1, 2).unwrap()));
    assert_eq!(exc_1_3.intersect(&inc_1_3), Some(SpanExc::new(1, 3)));
    assert_eq!(exc_1_3.intersect(&inc_2_4), Some(SpanExc::new(2, 3)));
    assert_eq!(exc_1_3.intersect(&inc_3_5), None);
    assert_eq!(exc_1_3.intersect(&empty), None);

    assert_eq!(exc_2_4.intersect(&exc_0_2), None);
    assert_eq!(exc_2_4.intersect(&exc_1_3), Some(SpanExc::new(2, 3)));
    assert_eq!(exc_2_4.intersect(&exc_2_4), Some(SpanExc::new(2, 4)));
    assert_eq!(exc_2_4.intersect(&exc_3_5), Some(SpanExc::new(3, 4)));
    assert_eq!(exc_2_4.intersect(&inc_0_2), Some(SpanExc::point(2).unwrap()));
    assert_eq!(exc_2_4.intersect(&inc_1_3), Some(SpanExc::inc(2, 3).unwrap()));
    assert_eq!(exc_2_4.intersect(&inc_2_4), Some(SpanExc::new(2, 4)));
    assert_eq!(exc_2_4.intersect(&inc_3_5), Some(SpanExc::new(3, 4)));
    assert_eq!(exc_2_4.intersect(&empty), None);

    assert_eq!(exc_3_5.intersect(&exc_0_2), None);
    assert_eq!(exc_3_5.intersect(&exc_1_3), None);
    assert_eq!(exc_3_5.intersect(&exc_2_4), Some(SpanExc::new(3, 4)));
    assert_eq!(exc_3_5.intersect(&exc_3_5), Some(SpanExc::new(3, 5)));
    assert_eq!(exc_3_5.intersect(&inc_0_2), None);
    assert_eq!(exc_3_5.intersect(&inc_1_3), Some(SpanExc::point(3).unwrap()));
    assert_eq!(exc_3_5.intersect(&inc_2_4), Some(SpanExc::inc(3, 4).unwrap()));
    assert_eq!(exc_3_5.intersect(&inc_3_5), Some(SpanExc::new(3, 5)));
    assert_eq!(exc_3_5.intersect(&empty), None);

    assert_eq!(inc_0_2.intersect(&exc_0_2), Some(SpanExc::new(0, 2)));
    assert_eq!(inc_0_2.intersect(&exc_1_3), Some(SpanExc::inc(1, 2).unwrap()));
    assert_eq!(inc_0_2.intersect(&exc_2_4), Some(SpanExc::point(2).unwrap()));
    assert_eq!(inc_0_2.intersect(&exc_3_5), None);
    assert_eq!(inc_0_2.intersect(&inc_0_2), Some(SpanExc::inc(0, 2).unwrap()));
    assert_eq!(inc_0_2.intersect(&inc_1_3), Some(SpanExc::inc(1, 2).unwrap()));
    assert_eq!(inc_0_2.intersect(&inc_2_4), Some(SpanExc::point(2).unwrap()));
    assert_eq!(inc_0_2.intersect(&inc_3_5), None);
    assert_eq!(inc_0_2.intersect(&empty), None);

    assert_eq!(inc_1_3.intersect(&exc_0_2), Some(SpanExc::new(1, 2)));
    assert_eq!(inc_1_3.intersect(&exc_1_3), Some(SpanExc::new(1, 3)));
    assert_eq!(inc_1_3.intersect(&exc_2_4), Some(SpanExc::inc(2, 3).unwrap()));
    assert_eq!(inc_1_3.intersect(&exc_3_5), Some(SpanExc::point(3).unwrap()));
    assert_eq!(inc_1_3.intersect(&inc_0_2), Some(SpanExc::inc(1, 2).unwrap()));
    assert_eq!(inc_1_3.intersect(&inc_1_3), Some(SpanExc::inc(1, 3).unwrap()));
    assert_eq!(inc_1_3.intersect(&inc_2_4), Some(SpanExc::inc(2, 3).unwrap()));
    assert_eq!(inc_1_3.intersect(&inc_3_5), Some(SpanExc::point(3).unwrap()));
    assert_eq!(inc_1_3.intersect(&empty), None);

    assert_eq!(inc_2_4.intersect(&exc_0_2), None);
    assert_eq!(inc_2_4.intersect(&exc_1_3), Some(SpanExc::new(2, 3)));
    assert_eq!(inc_2_4.intersect(&exc_2_4), Some(SpanExc::new(2, 4)));
    assert_eq!(inc_2_4.intersect(&exc_3_5), Some(SpanExc::inc(3, 4).unwrap()));
    assert_eq!(inc_2_4.intersect(&inc_0_2), Some(SpanExc::point(2).unwrap()));
    assert_eq!(inc_2_4.intersect(&inc_1_3), Some(SpanExc::inc(2, 3).unwrap()));
    assert_eq!(inc_2_4.intersect(&inc_2_4), Some(SpanExc::inc(2, 4).unwrap()));
    assert_eq!(inc_2_4.intersect(&inc_3_5), Some(SpanExc::inc(3, 4).unwrap()));
    assert_eq!(inc_2_4.intersect(&empty), None);

    assert_eq!(inc_3_5.intersect(&exc_0_2), None);
    assert_eq!(inc_3_5.intersect(&exc_1_3), None);
    assert_eq!(inc_3_5.intersect(&exc_2_4), Some(SpanExc::new(3, 4)));
    assert_eq!(inc_3_5.intersect(&exc_3_5), Some(SpanExc::new(3, 5)));
    assert_eq!(inc_3_5.intersect(&inc_0_2), None);
    assert_eq!(inc_3_5.intersect(&inc_1_3), Some(SpanExc::point(3).unwrap()));
    assert_eq!(inc_3_5.intersect(&inc_2_4), Some(SpanExc::inc(3, 4).unwrap()));
    assert_eq!(inc_3_5.intersect(&inc_3_5), Some(SpanExc::inc(3, 5).unwrap()));
    assert_eq!(inc_3_5.intersect(&empty), None);

    // contains:
    assert!(!exc_0_2.contains(&-1));
    assert!(exc_0_2.contains(&0));
    assert!(exc_0_2.contains(&1));
    assert!(!exc_0_2.contains(&2));
    assert!(!exc_0_2.contains(&3));
    assert!(!inc_0_2.contains(&-1));
    assert!(inc_0_2.contains(&0));
    assert!(inc_0_2.contains(&1));
    assert!(inc_0_2.contains(&2));
    assert!(!inc_0_2.contains(&3));

    // contains_span:
    assert!(exc_0_2.contains_span(&exc_0_2));
    assert!(!exc_0_2.contains_span(&exc_1_3));
    assert!(inc_0_2.contains_span(&inc_0_2));
    assert!(inc_0_2.contains_span(&exc_0_2));
    assert!(!exc_0_2.contains_span(&inc_0_2));
    assert!(!exc_0_2.contains_span(&inc_1_3));
    assert!(!empty.contains_span(&exc_0_2));
    assert!(!empty.contains_span(&inc_0_2));
    assert!(empty.contains_span(&empty));

    // cover:
    assert_eq!(SpanExc::cover(&exc_0_2, &exc_0_2), SpanExc::new(0, 2));
    assert_eq!(SpanExc::cover(&exc_0_2, &exc_1_3), SpanExc::new(0, 3));
    assert_eq!(SpanExc::cover(&exc_0_2, &exc_2_4), SpanExc::new(0, 4));
    assert_eq!(SpanExc::cover(&exc_0_2, &exc_3_5), SpanExc::new(0, 5));
    assert_eq!(SpanExc::cover(&exc_0_2, &inc_0_2), SpanExc::inc(0, 2).unwrap());
    assert_eq!(SpanExc::cover(&exc_0_2, &inc_1_3), SpanExc::inc(0, 3).unwrap());
    assert_eq!(SpanExc::cover(&exc_0_2, &inc_2_4), SpanExc::inc(0, 4).unwrap());
    assert_eq!(SpanExc::cover(&exc_0_2, &inc_3_5), SpanExc::inc(0, 5).unwrap());
    assert_eq!(SpanExc::cover(&exc_0_2, &empty), SpanExc::new(0, 2));

    assert_eq!(SpanExc::cover(&exc_1_3, &exc_0_2), SpanExc::new(0, 3));
    assert_eq!(SpanExc::cover(&exc_1_3, &exc_1_3), SpanExc::new(1, 3));
    assert_eq!(SpanExc::cover(&exc_1_3, &exc_2_4), SpanExc::new(1, 4));
    assert_eq!(SpanExc::cover(&exc_1_3, &exc_3_5), SpanExc::new(1, 5));
    assert_eq!(SpanExc::cover(&exc_1_3, &inc_0_2), SpanExc::new(0, 3));
    assert_eq!(SpanExc::cover(&exc_1_3, &inc_1_3), SpanExc::inc(1, 3).unwrap());
    assert_eq!(SpanExc::cover(&exc_1_3, &inc_2_4), SpanExc::inc(1, 4).unwrap());
    assert_eq!(SpanExc::cover(&exc_1_3, &inc_3_5), SpanExc::inc(1, 5).unwrap());
    assert_eq!(SpanExc::cover(&exc_1_3, &empty), SpanExc::new(1, 3));

    assert_eq!(SpanExc::cover(&exc_2_4, &exc_0_2), SpanExc::new(0, 4));
    assert_eq!(SpanExc::cover(&exc_2_4, &exc_1_3), SpanExc::new(1, 4));
    assert_eq!(SpanExc::cover(&exc_2_4, &exc_2_4), SpanExc::new(2, 4));
    assert_eq!(SpanExc::cover(&exc_2_4, &exc_3_5), SpanExc::new(2, 5));
    assert_eq!(SpanExc::cover(&exc_2_4, &inc_0_2), SpanExc::new(0, 4));
    assert_eq!(SpanExc::cover(&exc_2_4, &inc_1_3), SpanExc::new(1, 4));
    assert_eq!(SpanExc::cover(&exc_2_4, &inc_2_4), SpanExc::inc(2, 4).unwrap());
    assert_eq!(SpanExc::cover(&exc_2_4, &inc_3_5), SpanExc::inc(2, 5).unwrap());
    assert_eq!(SpanExc::cover(&exc_2_4, &empty), SpanExc::new(2, 4));

    assert_eq!(SpanExc::cover(&exc_3_5, &exc_0_2), SpanExc::new(0, 5));
    assert_eq!(SpanExc::cover(&exc_3_5, &exc_1_3), SpanExc::new(1, 5));
    assert_eq!(SpanExc::cover(&exc_3_5, &exc_2_4), SpanExc::new(2, 5));
    assert_eq!(SpanExc::cover(&exc_3_5, &exc_3_5), SpanExc::new(3, 5));
    assert_eq!(SpanExc::cover(&exc_3_5, &inc_0_2), SpanExc::new(0, 5));
    assert_eq!(SpanExc::cover(&exc_3_5, &inc_1_3), SpanExc::new(1, 5));
    assert_eq!(SpanExc::cover(&exc_3_5, &inc_2_4), SpanExc::new(2, 5));
    assert_eq!(SpanExc::cover(&exc_3_5, &inc_3_5), SpanExc::inc(3, 5).unwrap());
    assert_eq!(SpanExc::cover(&exc_3_5, &empty), SpanExc::new(3, 5));

    assert_eq!(SpanExc::cover(&inc_0_2, &exc_0_2), SpanExc::inc(0, 2).unwrap());
    assert_eq!(SpanExc::cover(&inc_0_2, &exc_1_3), SpanExc::new(0, 3));
    assert_eq!(SpanExc::cover(&inc_0_2, &exc_2_4), SpanExc::new(0, 4));
    assert_eq!(SpanExc::cover(&inc_0_2, &exc_3_5), SpanExc::new(0, 5));
    assert_eq!(SpanExc::cover(&inc_0_2, &inc_0_2), SpanExc::inc(0, 2).unwrap());
    assert_eq!(SpanExc::cover(&inc_0_2, &inc_1_3), SpanExc::inc(0, 3).unwrap());
    assert_eq!(SpanExc::cover(&inc_0_2, &inc_2_4), SpanExc::inc(0, 4).unwrap());
    assert_eq!(SpanExc::cover(&inc_0_2, &inc_3_5), SpanExc::inc(0, 5).unwrap());
    assert_eq!(SpanExc::cover(&inc_0_2, &empty), SpanExc::inc(0, 2).unwrap());

    assert_eq!(SpanExc::cover(&inc_1_3, &exc_0_2), SpanExc::inc(0, 3).unwrap());
    assert_eq!(SpanExc::cover(&inc_1_3, &exc_1_3), SpanExc::inc(1, 3).unwrap());
    assert_eq!(SpanExc::cover(&inc_1_3, &exc_2_4), SpanExc::new(1, 4));
    assert_eq!(SpanExc::cover(&inc_1_3, &exc_3_5), SpanExc::new(1, 5));
    assert_eq!(SpanExc::cover(&inc_1_3, &inc_0_2), SpanExc::inc(0, 3).unwrap());
    assert_eq!(SpanExc::cover(&inc_1_3, &inc_1_3), SpanExc::inc(1, 3).unwrap());
    assert_eq!(SpanExc::cover(&inc_1_3, &inc_2_4), SpanExc::inc(1, 4).unwrap());
    assert_eq!(SpanExc::cover(&inc_1_3, &inc_3_5), SpanExc::inc(1, 5).unwrap());
    assert_eq!(SpanExc::cover(&inc_1_3, &empty), SpanExc::inc(1, 3).unwrap());

    assert_eq!(SpanExc::cover(&inc_2_4, &exc_0_2), SpanExc::inc(0, 4).unwrap());
    assert_eq!(SpanExc::cover(&inc_2_4, &exc_1_3), SpanExc::inc(1, 4).unwrap());
    assert_eq!(SpanExc::cover(&inc_2_4, &exc_2_4), SpanExc::inc(2, 4).unwrap());
    assert_eq!(SpanExc::cover(&inc_2_4, &exc_3_5), SpanExc::new(2, 5));
    assert_eq!(SpanExc::cover(&inc_2_4, &inc_0_2), SpanExc::inc(0, 4).unwrap());
    assert_eq!(SpanExc::cover(&inc_2_4, &inc_1_3), SpanExc::inc(1, 4).unwrap());
    assert_eq!(SpanExc::cover(&inc_2_4, &inc_2_4), SpanExc::inc(2, 4).unwrap());
    assert_eq!(SpanExc::cover(&inc_2_4, &inc_3_5), SpanExc::inc(2, 5).unwrap());
    assert_eq!(SpanExc::cover(&inc_2_4, &empty), SpanExc::inc(2, 4).unwrap());

    assert_eq!(SpanExc::cover(&inc_3_5, &exc_0_2), SpanExc::inc(0, 5).unwrap());
    assert_eq!(SpanExc::cover(&inc_3_5, &exc_1_3), SpanExc::inc(1, 5).unwrap());
    assert_eq!(SpanExc::cover(&inc_3_5, &exc_2_4), SpanExc::inc(2, 5).unwrap());
    assert_eq!(SpanExc::cover(&inc_3_5, &exc_3_5), SpanExc::inc(3, 5).unwrap());
    assert_eq!(SpanExc::cover(&inc_3_5, &inc_0_2), SpanExc::inc(0, 5).unwrap());
    assert_eq!(SpanExc::cover(&inc_3_5, &inc_1_3), SpanExc::inc(1, 5).unwrap());
    assert_eq!(SpanExc::cover(&inc_3_5, &inc_2_4), SpanExc::inc(2, 5).unwrap());
    assert_eq!(SpanExc::cover(&inc_3_5, &inc_3_5), SpanExc::inc(3, 5).unwrap());
    assert_eq!(SpanExc::cover(&inc_3_5, &empty), SpanExc::inc(3, 5).unwrap());

    assert_eq!(SpanExc::cover(&empty, &exc_0_2), SpanExc::new(0, 2));
    assert_eq!(SpanExc::cover(&empty, &exc_1_3), SpanExc::new(1, 3));
    assert_eq!(SpanExc::cover(&empty, &exc_2_4), SpanExc::new(2, 4));
    assert_eq!(SpanExc::cover(&empty, &exc_3_5), SpanExc::new(3, 5));
    assert_eq!(SpanExc::cover(&empty, &inc_0_2), SpanExc::inc(0, 2).unwrap());
    assert_eq!(SpanExc::cover(&empty, &inc_1_3), SpanExc::inc(1, 3).unwrap());
    assert_eq!(SpanExc::cover(&empty, &inc_2_4), SpanExc::inc(2, 4).unwrap());
    assert_eq!(SpanExc::cover(&empty, &inc_3_5), SpanExc::inc(3, 5).unwrap());
    assert_eq!(SpanExc::cover(&empty, &empty), SpanExc::empty());

    // is_empty:
    assert!(!exc_0_2.is_empty());
    assert!(!exc_1_3.is_empty());
    assert!(!exc_2_4.is_empty());
    assert!(!exc_3_5.is_empty());
    assert!(!inc_0_2.is_empty());
    assert!(!inc_1_3.is_empty());
    assert!(!inc_2_4.is_empty());
    assert!(!inc_3_5.is_empty());
    assert!(empty.is_empty());

    // size:
    assert_eq!(exc_0_2.size(), 2);
    assert_eq!(exc_1_3.size(), 2);
    assert_eq!(exc_2_4.size(), 2);
    assert_eq!(exc_3_5.size(), 2);
    assert_eq!(inc_0_2.size(), 3);
    assert_eq!(inc_1_3.size(), 3);
    assert_eq!(inc_2_4.size(), 3);
    assert_eq!(inc_3_5.size(), 3);
    assert_eq!(empty.size(), 0);
}
