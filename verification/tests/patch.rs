use litedasm::arch::Context;
use litedasm::patch::Patch;

#[test]
fn data() {
    let mut ctx = Context::default();
    ctx.patches.push(Patch::Data {
        offset: 1,
        data: vec![0, 1, 2, 3],
    });

    let test_data = vec![0, 1, 2, 3];
    let res = ctx.patch(&test_data).unwrap();

    assert_eq!(vec![0, 0, 1, 2, 3], res);
}

#[test]
fn repeat() {
    let mut ctx = Context::default();
    ctx.patches.push(Patch::Rep {
        offset: 1,
        byte: 5,
        len: 4,
    });

    let test_data = vec![0, 1, 2, 3];
    let res = ctx.patch(&test_data).unwrap();

    assert_eq!(vec![0, 5, 5, 5, 5], res);
}
