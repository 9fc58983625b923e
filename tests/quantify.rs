use urm::quantify::{AsOption, AsSelf, AsVec, Quantify};
use urm::ty::{MapTo, MapToProbe, Nullable, Type, Unit, Vector};

struct Edition;

fn output_of<Q: Quantify<U>, U>(value: <Q as Quantify<U>>::Output) -> <Q as Quantify<U>>::Output {
    value
}

#[test]
fn quantified_outputs() {
    let many: Vec<Edition> = output_of::<AsVec, Edition>(vec![Edition, Edition]);
    assert_eq!(many.len(), 2);
    let one: Edition = output_of::<AsSelf, Edition>(Edition);
    let _ = one;
    let maybe: Option<Edition> = output_of::<AsOption, Edition>(None);
    assert!(maybe.is_none());
}

fn mapped<T: MapTo<U>, U>(value: <<T as MapTo<U>>::Quantify as Quantify<U>>::Output) -> <<T as MapTo<U>>::Quantify as Quantify<U>>::Output {
    value
}

#[test]
fn mapping_keeps_quantification() {
    let many: Vec<Edition> = mapped::<Vector<u32>, Edition>(vec![Edition]);
    assert_eq!(many.len(), 1);
    let maybe: Option<Edition> = mapped::<Nullable<u32>, Edition>(Some(Edition));
    assert!(maybe.is_some());
    let one: Edition = mapped::<Unit<u32>, Edition>(Edition);
    let _ = one;
    let out: <Vector<String> as Type>::Output = vec!["x".to_string()];
    assert_eq!(out.len(), 1);
}

struct Publication;

#[test]
fn mapped_probe_output_is_quantified_unit() {
    let many: <MapToProbe<Vector<Edition>, fn(Edition) -> Publication, Publication> as Type>::Output =
        vec![Publication, Publication];
    assert_eq!(many.len(), 2);
    let maybe: <MapToProbe<Nullable<Edition>, fn(Edition) -> Publication, Publication> as Type>::Output = None;
    assert!(maybe.is_none());
    let one: <MapToProbe<Unit<Edition>, fn(Edition) -> Publication, Publication> as Type>::Output = Publication;
    let _ = one;
    let unit: <MapToProbe<Vector<Edition>, fn(Edition) -> Publication, Publication> as Type>::Unit = Publication;
    let _ = unit;
}
