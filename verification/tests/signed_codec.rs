use binpack::{unpack, PackError, Packable};

#[test]
fn test_pack_i8() {
    let val = 25i8;
    let val2 = -25i8;

    assert_eq!(val.pack().unwrap(), vec![25]);
    assert_eq!(val2.pack().unwrap(), vec![231]);
}

#[test]
fn test_unpack_i8() {
    let i1 = [];
    let i2 = [25];
    let i3 = [25, 0xff];
    let i4 = [231];
    let i5 = [231, 0xff];

    let v1: Result<(i8, _), PackError> = unpack(&i1);
    let (v2, b2): (i8, _) = unpack(&i2).unwrap();
    let (v3, b3): (i8, _) = unpack(&i3).unwrap();
    let (v4, b4): (i8, _) = unpack(&i4).unwrap();
    let (v5, b5): (i8, _) = unpack(&i5).unwrap();

    assert_eq!(v1, Err(PackError::SizeError));
    assert_eq!(v2, 25);
    assert_eq!(b2, &[]);
    assert_eq!(v3, 25);
    assert_eq!(b3, &[0xff]);
    assert_eq!(v4, -25);
    assert_eq!(b4, &[]);
    assert_eq!(v5, -25);
    assert_eq!(b5, &[0xff]);
}

#[test]
fn test_roundtrip_i8() {
    let v1 = 25;
    let v2 = -25;

    let i1 = v1.pack().unwrap();
    let i2 = v2.pack().unwrap();

    let (t1, t1b): (i8, _) = unpack(&i1).unwrap();
    let (t2, t2b): (i8, _) = unpack(&i2).unwrap();

    assert_eq!(t1, v1);
    assert_eq!(t1b, &[]);
    assert_eq!(t2, v2);
    assert_eq!(t2b, &[]);
}

#[test]
fn test_pack_i16() {
    let v1 = 0x1221i16;
    let v2 = -0x1221i16;

    assert_eq!(v1.pack().unwrap(), vec![0x12, 0x21]);
    assert_eq!(v2.pack().unwrap(), vec![0xed, 0xdf]);
}

#[test]
fn test_unpack_i16() {
    let i1 = [0x12];
    let i2 = [0x12, 0x21];
    let i3 = [0x12, 0x21, 0xff];
    let i4 = [0xed, 0xdf];
    let i5 = [0xed, 0xdf, 0xff];

    let v1: Result<(i16, _), PackError> = unpack(&i1);
    let (v2, b2): (i16, _) = unpack(&i2).unwrap();
    let (v3, b3): (i16, _) = unpack(&i3).unwrap();
    let (v4, b4): (i16, _) = unpack(&i4).unwrap();
    let (v5, b5): (i16, _) = unpack(&i5).unwrap();

    assert_eq!(v1, Err(PackError::SizeError));
    assert_eq!(v2, 0x1221);
    assert_eq!(b2, &[]);
    assert_eq!(v3, 0x1221);
    assert_eq!(b3, &[0xff]);
    assert_eq!(v4, -0x1221);
    assert_eq!(b4, &[]);
    assert_eq!(v5, -0x1221);
    assert_eq!(b5, &[0xff]);
}

#[test]
fn test_roundtrip_i16() {
    let v1 = 0x1221;
    let v2 = -0x1221;

    let i1 = v1.pack().unwrap();
    let i2 = v2.pack().unwrap();

    let (t1, b1): (i16, _) = unpack(&i1).unwrap();
    let (t2, b2): (i16, _) = unpack(&i2).unwrap();

    assert_eq!(t1, v1);
    assert_eq!(b1, &[]);
    assert_eq!(t2, v2);
    assert_eq!(b2, &[]);
}

#[test]
fn test_pack_i32() {
    let v1 = 0x12345678i32;
    let v2 = -0x12345678i32;

    let i1 = v1.pack().unwrap();
    let i2 = v2.pack().unwrap();

    assert_eq!(i1, vec![0x12, 0x34, 0x56, 0x78]);
    assert_eq!(i2, vec![0xed, 0xcb, 0xa9, 0x88]);
}

#[test]
fn test_unpack_i32() {
    let i1 = [];
    let i2 = [0x12];
    let i3 = [0x12, 0x34];
    let i4 = [0x12, 0x34, 0x56];
    let i5 = [0x12, 0x34, 0x56, 0x78];
    let i6 = [0x12, 0x34, 0x56, 0x78, 0xff];
    let i7 = [0xed, 0xcb, 0xa9, 0x88];
    let i8 = [0xed, 0xcb, 0xa9, 0x88, 0xff];

    let v1: Result<(i32, _), PackError> = unpack(&i1);
    let v2: Result<(i32, _), PackError> = unpack(&i2);
    let v3: Result<(i32, _), PackError> = unpack(&i3);
    let v4: Result<(i32, _), PackError> = unpack(&i4);
    let (v5, b5): (i32, _) = unpack(&i5).unwrap();
    let (v6, b6): (i32, _) = unpack(&i6).unwrap();
    let (v7, b7): (i32, _) = unpack(&i7).unwrap();
    let (v8, b8): (i32, _) = unpack(&i8).unwrap();

    assert_eq!(v1, Err(PackError::SizeError));
    assert_eq!(v2, Err(PackError::SizeError));
    assert_eq!(v3, Err(PackError::SizeError));
    assert_eq!(v4, Err(PackError::SizeError));
    assert_eq!(v5, 0x12345678);
    assert_eq!(b5, &[]);
    assert_eq!(v6, 0x12345678);
    assert_eq!(b6, &[0xff]);
    assert_eq!(v7, -0x12345678);
    assert_eq!(b7, &[]);
    assert_eq!(v8, -0x12345678);
    assert_eq!(b8, &[0xff]);
}

#[test]
fn test_roundtrip_i32() {
    let v1 = 0x12345678;
    let v2 = -0x12345678;

    let i1 = v1.pack().unwrap();
    let i2 = v2.pack().unwrap();

    let (t1, b1): (i32, _) = unpack(&i1).unwrap();
    let (t2, b2): (i32, _) = unpack(&i2).unwrap();

    assert_eq!(t1, v1);
    assert_eq!(b1, &[]);
    assert_eq!(t2, v2);
    assert_eq!(b2, &[]);
}

#[test]
fn test_pack_i64() {
    let v1 = 0x123456789abcdefi64;
    let v2 = -0x123456789abcdefi64;

    assert_eq!(v1.pack().unwrap(), vec![0x01, 0x23, 0x45, 0x67, 0x89, 0xab, 0xcd, 0xef]);
    assert_eq!(v2.pack().unwrap(), vec![0xfe, 0xdc, 0xba, 0x98, 0x76, 0x54, 0x32, 0x11]);
}

#[test]
fn test_unpack_i64() {
    let i1 = [];
    let i2 = [0x01];
    let i3 = [0x01, 0x23];
    let i4 = [0x01, 0x23, 0x45];
    let i5 = [0x01, 0x23, 0x45, 0x67];
    let i6 = [0x01, 0x23, 0x45, 0x67, 0x89];
    let i7 = [0x01, 0x23, 0x45, 0x67, 0x89, 0xab];
    let i8 = [0x01, 0x23, 0x45, 0x67, 0x89, 0xab, 0xcd];
    let i9 = [0x01, 0x23, 0x45, 0x67, 0x89, 0xab, 0xcd, 0xef];
    let i10 = [0x01, 0x23, 0x45, 0x67, 0x89, 0xab, 0xcd, 0xef, 0xff];
    let i11 = [0xfe, 0xdc, 0xba, 0x98, 0x76, 0x54, 0x32, 0x11];
    let i12 = [0xfe, 0xdc, 0xba, 0x98, 0x76, 0x54, 0x32, 0x11, 0xff];

    let v1: Result<(i64, _), PackError> = unpack(&i1);
    let v2: Result<(i64, _), PackError> = unpack(&i2);
    let v3: Result<(i64, _), PackError> = unpack(&i3);
    let v4: Result<(i64, _), PackError> = unpack(&i4);
    let v5: Result<(i64, _), PackError> = unpack(&i5);
    let v6: Result<(i64, _), PackError> = unpack(&i6);
    let v7: Result<(i64, _), PackError> = unpack(&i7);
    let v8: Result<(i64, _), PackError> = unpack(&i8);
    let (v9, b9): (i64, _) = unpack(&i9).unwrap();
    let (v10, b10): (i64, _) = unpack(&i10).unwrap();
    let (v11, b11): (i64, _) = unpack(&i11).unwrap();
    let (v12, b12): (i64, _) = unpack(&i12).unwrap();

    assert_eq!(v1, Err(PackError::SizeError));
    assert_eq!(v2, Err(PackError::SizeError));
    assert_eq!(v3, Err(PackError::SizeError));
    assert_eq!(v4, Err(PackError::SizeError));
    assert_eq!(v5, Err(PackError::SizeError));
    assert_eq!(v6, Err(PackError::SizeError));
    assert_eq!(v7, Err(PackError::SizeError));
    assert_eq!(v8, Err(PackError::SizeError));
    assert_eq!(v9, 0x0123456789abcdef);
    assert_eq!(b9, &[]);
    assert_eq!(v10, 0x0123456789abcdef);
    assert_eq!(b10, &[0xff]);
    assert_eq!(v11, -0x0123456789abcdef);
    assert_eq!(b11, &[]);
    assert_eq!(v12, -0x0123456789abcdef);
    assert_eq!(b12, &[0xff]);
}

#[test]
fn test_roundtrip_i64() {
    let v1 = 0x123456789abcdefi64;
    let v2 = -0x123456789abcdefi64;

    let i1 = v1.pack().unwrap();
    let i2 = v2.pack().unwrap();

    let (t1, b1): (i64, _) = unpack(&i1).unwrap();
    let (t2, b2): (i64, _) = unpack(&i2).unwrap();

    assert_eq!(t1, v1);
    assert_eq!(b1, &[]);
    assert_eq!(t2, v2);
    assert_eq!(b2, &[]);
}

#[test]
fn test_pack_i128() {
    let v1 = 0x0123456789abcdeffedcba9876543210i128;
    let v2 = -0x0123456789abcdeffedcba9876543210i128;

    assert_eq!(
        v1.pack().unwrap(),
        vec![
            0x01, 0x23, 0x45, 0x67, 0x89, 0xab, 0xcd, 0xef, 0xfe, 0xdc, 0xba, 0x98, 0x76, 0x54,
            0x32, 0x10
        ]
    );
    assert_eq!(
        v2.pack().unwrap(),
        vec![
            0xfe, 0xdc, 0xba, 0x98, 0x76, 0x54, 0x32, 0x10, 0x01, 0x23, 0x45, 0x67, 0x89, 0xab,
            0xcd, 0xf0
        ]
    );
}

#[test]
fn test_unpack_i128() {
    let i1 = [];
    let i2 = [0x01];
    let i3 = [0x01, 0x23];
    let i4 = [0x01, 0x23, 0x45];
    let i5 = [0x01, 0x23, 0x45, 0x67];
    let i6 = [0x01, 0x23, 0x45, 0x67, 0x89];
    let i7 = [0x01, 0x23, 0x45, 0x67, 0x89, 0xab];
    let i8 = [0x01, 0x23, 0x45, 0x67, 0x89, 0xab, 0xcd];
    let i9 = [0x01, 0x23, 0x45, 0x67, 0x89, 0xab, 0xcd, 0xef];
    let i10 = [0x01, 0x23, 0x45, 0x67, 0x89, 0xab, 0xcd, 0xef, 0xfe];
    let i11 = [0x01, 0x23, 0x45, 0x67, 0x89, 0xab, 0xcd, 0xef, 0xfe, 0xdc];
    let i12 = [0x01, 0x23, 0x45, 0x67, 0x89, 0xab, 0xcd, 0xef, 0xfe, 0xdc, 0xba];
    let i13 = [0x01, 0x23, 0x45, 0x67, 0x89, 0xab, 0xcd, 0xef, 0xfe, 0xdc, 0xba, 0x98];
    let i14 = [0x01, 0x23, 0x45, 0x67, 0x89, 0xab, 0xcd, 0xef, 0xfe, 0xdc, 0xba, 0x98, 0x76];
    let i15 = [0x01, 0x23, 0x45, 0x67, 0x89, 0xab, 0xcd, 0xef, 0xfe, 0xdc, 0xba, 0x98, 0x76, 0x54];
    let i16 = [
        0x01, 0x23, 0x45, 0x67, 0x89, 0xab, 0xcd, 0xef, 0xfe, 0xdc, 0xba, 0x98, 0x76, 0x54, 0x32,
    ];
    let i17 = [
        0x01, 0x23, 0x45, 0x67, 0x89, 0xab, 0xcd, 0xef, 0xfe, 0xdc, 0xba, 0x98, 0x76, 0x54, 0x32,
        0x10,
    ];
    let i18 = [
        0x01, 0x23, 0x45, 0x67, 0x89, 0xab, 0xcd, 0xef, 0xfe, 0xdc, 0xba, 0x98, 0x76, 0x54, 0x32,
        0x10, 0xff,
    ];
    let i19 = [
        0xfe, 0xdc, 0xba, 0x98, 0x76, 0x54, 0x32, 0x10, 0x01, 0x23, 0x45, 0x67, 0x89, 0xab, 0xcd,
        0xf0,
    ];
    let i20 = [
        0xfe, 0xdc, 0xba, 0x98, 0x76, 0x54, 0x32, 0x10, 0x01, 0x23, 0x45, 0x67, 0x89, 0xab, 0xcd,
        0xf0, 0xff,
    ];

    let v1: Result<(i128, _), PackError> = unpack(&i1);
    let v2: Result<(i128, _), PackError> = unpack(&i2);
    let v3: Result<(i128, _), PackError> = unpack(&i3);
    let v4: Result<(i128, _), PackError> = unpack(&i4);
    let v5: Result<(i128, _), PackError> = unpack(&i5);
    let v6: Result<(i128, _), PackError> = unpack(&i6);
    let v7: Result<(i128, _), PackError> = unpack(&i7);
    let v8: Result<(i128, _), PackError> = unpack(&i8);
    let v9: Result<(i128, _), PackError> = unpack(&i9);
    let v10: Result<(i128, _), PackError> = unpack(&i10);
    let v11: Result<(i128, _), PackError> = unpack(&i11);
    let v12: Result<(i128, _), PackError> = unpack(&i12);
    let v13: Result<(i128, _), PackError> = unpack(&i13);
    let v14: Result<(i128, _), PackError> = unpack(&i14);
    let v15: Result<(i128, _), PackError> = unpack(&i15);
    let v16: Result<(i128, _), PackError> = unpack(&i16);
    let (v17, b17): (i128, _) = unpack(&i17).unwrap();
    let (v18, b18): (i128, _) = unpack(&i18).unwrap();
    let (v19, b19): (i128, _) = unpack(&i19).unwrap();
    let (v20, b20): (i128, _) = unpack(&i20).unwrap();

    assert_eq!(v1, Err(PackError::SizeError));
    assert_eq!(v2, Err(PackError::SizeError));
    assert_eq!(v3, Err(PackError::SizeError));
    assert_eq!(v4, Err(PackError::SizeError));
    assert_eq!(v5, Err(PackError::SizeError));
    assert_eq!(v6, Err(PackError::SizeError));
    assert_eq!(v7, Err(PackError::SizeError));
    assert_eq!(v8, Err(PackError::SizeError));
    assert_eq!(v9, Err(PackError::SizeError));
    assert_eq!(v10, Err(PackError::SizeError));
    assert_eq!(v11, Err(PackError::SizeError));
    assert_eq!(v12, Err(PackError::SizeError));
    assert_eq!(v13, Err(PackError::SizeError));
    assert_eq!(v14, Err(PackError::SizeError));
    assert_eq!(v15, Err(PackError::SizeError));
    assert_eq!(v16, Err(PackError::SizeError));
    assert_eq!(v17, 0x0123456789abcdeffedcba9876543210);
    assert_eq!(b17, &[]);
    assert_eq!(v18, 0x0123456789abcdeffedcba9876543210);
    assert_eq!(b18, &[0xff]);
    assert_eq!(v19, -0x0123456789abcdeffedcba9876543210);
    assert_eq!(b19, &[]);
    assert_eq!(v20, -0x0123456789abcdeffedcba9876543210);
    assert_eq!(b20, &[0xff]);
}

#[test]
fn test_roundtrip_i128() {
    let v1 = 0x0123456789abcdeffedcba9876543210i128;
    let v2 = -0x0123456789abcdeffedcba9876543210i128;

    let i1 = v1.pack().unwrap();
    let i2 = v2.pack().unwrap();

    let (t1, b1): (i128, _) = unpack(&i1).unwrap();
    let (t2, b2): (i128, _) = unpack(&i2).unwrap();

    assert_eq!(t1, v1);
    assert_eq!(b1, &[]);
    assert_eq!(t2, v2);
    assert_eq!(b2, &[]);
}
